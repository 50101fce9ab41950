//! The environment that packages are built in: the sources, packages and tools that a recipe
//! depends on.

use crate::depshash::{
    begin, enc_tasks, is_feeding, lemma_feeding_is_exact, task_specs, DepsHash, DepsState,
    HashTask, TaskSpec,
};
use crate::mount::{
    bind, bind_spec, copy_upper, mounts_of, tmpfs, tmpfs_spec, upper_of, Mount, MountKind,
    MountKindSpec, MountSpec, Overlay, OverlayUpperDirectory, UpperSpec,
};
use crate::request::{empty_env, no_env, EnvSpec, ExecRequest, ExecSpec, PkgSet, StderrTarget};
use crate::store::path_bytes;
use crate::util::bytes::{lemma_lex_irreflexive, lemma_lex_transitive};
use crate::util::feed::enc_text;
use crate::util::names::{env_of, name_lt, NameMap};
use crate::util::path::{join_path, path_of, path_option, UnixPath};
use crate::util::text::{decimal, decimal_text, texts};
use crate::util::tree::{enc_entries, Node, Turn};
use crate::util::xxh3::xxh3_128;
use vstd::prelude::*;
use vstd::utf8::encode_utf8;

verus! {

pub const EXECENV_SOURCES_DIRECTORY_PATH: &'static str = "/chariot/sources";

pub const EXECENV_SYSROOT_DIRECTORY_PATH: &'static str = "/chariot/sysroot";

/// An environment.
#[derive(Debug)]
pub struct ExecEnv {
    pub parallelism: usize,
    /// where the entries of each source are, the lowest first
    pub sources: NameMap<Vec<UnixPath>>,
    pub sysroot: UnixPath,
    pub tool_overlay: Option<UnixPath>,
    pub root_readonly: bool,
    pub root_rw_overlay: Option<OverlayUpperDirectory>,
}

/// [`ExecEnv`] by its paths and texts.
#[verifier::ext_equal]
pub struct ExecEnvSpec {
    pub parallelism: nat,
    pub sources: Seq<(Seq<char>, Seq<Seq<u8>>)>,
    pub sysroot: Seq<u8>,
    pub tool_overlay: Option<Seq<u8>>,
    pub root_readonly: bool,
    pub root_rw_overlay: Option<UpperSpec>,
}

/// Sources by their names and paths.
pub open spec fn sources_of(s: Seq<(String, Vec<UnixPath>)>) -> Seq<(Seq<char>, Seq<Seq<u8>>)> {
    s.map_values(|e: (String, Vec<UnixPath>)| (e.0@, path_bytes(e.1@)))
}

impl View for ExecEnv {
    type V = ExecEnvSpec;

    open spec fn view(&self) -> ExecEnvSpec {
        ExecEnvSpec {
            parallelism: self.parallelism as nat,
            sources: sources_of(self.sources.entries@),
            sysroot: self.sysroot@,
            tool_overlay: path_option(self.tool_overlay),
            root_readonly: self.root_readonly,
            root_rw_overlay: upper_of(self.root_rw_overlay),
        }
    }
}

// ---------------------------------------------------------------------------
// Running programs
// ---------------------------------------------------------------------------

/// The mount of a source: one entry is mounted as it is, several are laid one over the other, the
/// last one on top.
pub open spec fn source_mount(name: Seq<char>, paths: Seq<Seq<u8>>) -> MountSpec {
    MountSpec {
        dest: join_path(path_of(EXECENV_SOURCES_DIRECTORY_PATH@), path_of(name)),
        kind: if paths.len() == 1 {
            MountKindSpec::Bind { from: paths[0], read_only: true, is_file: false }
        } else {
            MountKindSpec::OverlayFS { lower_directories: paths.reverse(), upper_directory: None }
        },
    }
}

/// The mounts of the sources.
pub open spec fn source_mounts(sources: Seq<(Seq<char>, Seq<Seq<u8>>)>) -> Seq<MountSpec> {
    sources.map_values(|s: (Seq<char>, Seq<Seq<u8>>)| source_mount(s.0, s.1))
}

/// What is at `/chariot` may not be written to any more.
pub open spec fn remount_spec() -> MountSpec {
    MountSpec {
        dest: path_of("/chariot"@),
        kind: MountKindSpec::Remount { readonly: true },
    }
}

/// All mounts of a program in an environment: the directory that holds the others, the sources,
/// the sysroot, the program's own mounts, and at last the directory again, no longer writable.
pub open spec fn env_mounts(env: ExecEnvSpec, mounts: Seq<MountSpec>) -> Seq<MountSpec> {
    seq![tmpfs_spec("/chariot"@)] + source_mounts(env.sources) + seq![
        bind_spec(EXECENV_SYSROOT_DIRECTORY_PATH@, env.sysroot, false, false),
    ] + mounts + seq![remount_spec()]
}

/// The variables of a program in an environment: the environment's own, and over them the
/// program's.
pub open spec fn env_variables(
    env: ExecEnvSpec,
    environment: Map<Seq<char>, Seq<char>>,
) -> Map<Seq<char>, Seq<char>> {
    no_env().insert("SOURCES_DIR"@, EXECENV_SOURCES_DIRECTORY_PATH@).insert(
        "SYSROOT_DIR"@,
        EXECENV_SYSROOT_DIRECTORY_PATH@,
    ).insert("PARALLELISM"@, decimal_text(env.parallelism)).union_prefer_right(environment)
}

/// A program in an environment.
pub open spec fn env_exec(env: ExecEnvSpec, request: EnvSpec) -> ExecSpec {
    ExecSpec {
        cwd: request.cwd,
        mounts: env_mounts(env, request.mounts),
        environment: env_variables(env, request.environment),
        stdin: request.stdin,
        stderr: request.stderr,
        args: request.args,
        pkgset: PkgSet::Environment,
        root_writable: !env.root_readonly,
        root_overlay: env.root_rw_overlay,
        root_layers: match env.tool_overlay {
            None => Seq::empty(),
            Some(path) => seq![path],
        },
    }
}

fn reverse_paths(s: &Vec<UnixPath>) -> (r: Vec<UnixPath>)
    ensures
        path_bytes(r@) == path_bytes(s@).reverse(),
{
    let mut out: Vec<UnixPath> = Vec::new();
    let mut i: usize = s.len();
    assert(path_bytes(out@) =~= path_bytes(s@).reverse().take(0));
    while i > 0
        invariant
            0 <= i <= s@.len(),
            path_bytes(out@) == path_bytes(s@).reverse().take(s@.len() - i),
        decreases i,
    {
        let ghost before = path_bytes(out@);
        let ghost all = path_bytes(s@).reverse();
        i = i - 1;
        let path: UnixPath = s[i].copy();
        out.push(path);
        assert(path_bytes(out@) =~= before.push(path@));
        assert(all[s@.len() - 1 - i] == path@);
        assert(all.take(s@.len() - i) =~= all.take(s@.len() - i - 1).push(path@));
    }
    assert(path_bytes(s@).reverse().take(s@.len() as int) =~= path_bytes(s@).reverse());
    out
}

fn make_source_mount(name: &str, paths: &Vec<UnixPath>) -> (r: Mount)
    ensures
        r@ == source_mount(name@, path_bytes(paths@)),
{
    Mount {
        dest: UnixPath::from_text(EXECENV_SOURCES_DIRECTORY_PATH).join(name),
        kind: if paths.len() == 1 {
            MountKind::Bind { from: paths[0].copy(), read_only: true, is_file: false }
        } else {
            MountKind::OverlayFS(
                Overlay { lower_directories: reverse_paths(paths), upper_directory: None },
            )
        },
    }
}

/// The things of which the hash of an environment is made.
pub open spec fn deps_tasks(env: ExecEnvSpec) -> Seq<TaskSpec> {
    source_tasks(env.sources) + seq![TaskSpec::Directory(env.sysroot)] + match env.tool_overlay {
        None => seq![TaskSpec::Byte(0)],
        Some(path) => seq![TaskSpec::Byte(1), TaskSpec::Directory(path)],
    }
}

/// The name of each source and its directories.
pub open spec fn source_tasks(sources: Seq<(Seq<char>, Seq<Seq<u8>>)>) -> Seq<TaskSpec>
    decreases sources.len(),
{
    if sources.len() == 0 {
        Seq::empty()
    } else {
        source_tasks(sources.drop_last()) + (seq![TaskSpec::Text(sources.last().0)]
            + directory_tasks(sources.last().1))
    }
}

/// Directories to feed.
pub open spec fn directory_tasks(paths: Seq<Seq<u8>>) -> Seq<TaskSpec> {
    paths.map_values(|p: Seq<u8>| TaskSpec::Directory(p))
}

impl ExecEnv {
    /// A program in this environment, as a program in the root file system.
    pub fn exec(
        &self,
        cwd: UnixPath,
        mounts: Vec<Mount>,
        environment: &NameMap<String>,
        stdin: bool,
        stderr: StderrTarget,
        args: Vec<String>,
    ) -> (r: ExecRequest)
        ensures
            r@ == env_exec(
                self@,
                (EnvSpec {
                    cwd: cwd@,
                    mounts: mounts_of(mounts@),
                    environment: env_of(*environment),
                    stdin,
                    stderr,
                    args: texts(args@),
                }),
            ),
    {
        let ghost own = mounts_of(mounts@);
        let mut all: Vec<Mount> = Vec::new();
        all.push(tmpfs("/chariot"));
        let mut i: usize = 0;
        let ghost start = seq![tmpfs_spec("/chariot"@)];
        let ghost goal = source_mounts(sources_of(self.sources.entries@));
        assert(mounts_of(all@) =~= start + goal.take(0));
        while i < self.sources.entries.len()
            invariant
                0 <= i <= self.sources.entries@.len(),
                goal == source_mounts(sources_of(self.sources.entries@)),
                mounts_of(all@) == start + goal.take(i as int),
            decreases self.sources.entries@.len() - i,
        {
            let ghost before = mounts_of(all@);
            let mount: Mount = make_source_mount(
                self.sources.entries[i].0.as_str(),
                &self.sources.entries[i].1,
            );
            all.push(mount);
            assert(mounts_of(all@) =~= before.push(mount@));
            assert(goal[i as int] == mount@);
            assert(start + goal.take(i + 1) =~= (start + goal.take(i as int)).push(mount@));
            i = i + 1;
        }
        assert(goal.take(i as int) =~= goal);
        let ghost before = mounts_of(all@);
        let sysroot: Mount = bind(
            EXECENV_SYSROOT_DIRECTORY_PATH,
            self.sysroot.copy(),
            false,
            false,
        );
        all.push(sysroot);
        assert(mounts_of(all@) =~= before + seq![sysroot@]);
        let ghost before = all@;
        let ghost given = mounts@;
        let mut mounts: Vec<Mount> = mounts;
        all.append(&mut mounts);
        assert(mounts_of(all@) =~= mounts_of(before) + mounts_of(given));
        let ghost before = mounts_of(all@);
        let remount: Mount = Mount {
            dest: UnixPath::from_text("/chariot"),
            kind: MountKind::Remount { readonly: true },
        };
        all.push(remount);
        assert(mounts_of(all@) =~= before + seq![remount@]);
        let mut variables: NameMap<String> = empty_env();
        variables.set("SOURCES_DIR", EXECENV_SOURCES_DIRECTORY_PATH);
        variables.set("SYSROOT_DIR", EXECENV_SYSROOT_DIRECTORY_PATH);
        variables.set("PARALLELISM", decimal(self.parallelism as u128).as_str());
        variables.set_all(environment);
        let mut root_layers: Vec<UnixPath> = Vec::new();
        if let Some(path) = &self.tool_overlay {
            root_layers.push(path.copy());
        }
        let r = ExecRequest {
            cwd,
            mounts: all,
            environment: variables,
            stdin,
            stderr,
            args,
            pkgset: PkgSet::Environment,
            root_writable: !self.root_readonly,
            root_overlay: copy_upper(&self.root_rw_overlay),
            root_layers,
        };
        assert(r@.root_layers =~= match self@.tool_overlay {
            None => Seq::empty(),
            Some(path) => seq![path],
        });
        assert(r@.mounts =~= env_mounts(self@, own));
        r
    }

    /// Starts to compute the hash of what is in this environment: the sources come in the order of
    /// their names.
    pub fn compute_deps_hash(&self) -> (r: DepsHash)
        requires
            self.sources.wf(),
        ensures
            r.wf(),
            r@ == begin(Seq::empty(), deps_tasks(self@)),
    {
        let mut tasks: Vec<HashTask> = Vec::new();
        let mut i: usize = 0;
        let ghost sources = sources_of(self.sources.entries@);
        assert(task_specs(tasks@) =~= source_tasks(sources.take(0)));
        while i < self.sources.entries.len()
            invariant
                0 <= i <= self.sources.entries@.len(),
                sources == sources_of(self.sources.entries@),
                task_specs(tasks@) == source_tasks(sources.take(i as int)),
            decreases self.sources.entries@.len() - i,
        {
            let ghost before = task_specs(tasks@);
            let ghost name = self.sources.entries@[i as int].0@;
            let paths: &Vec<UnixPath> = &self.sources.entries[i].1;
            tasks.push(HashTask::Text(self.sources.entries[i].0.clone()));
            let ghost named = before + seq![TaskSpec::Text(name)];
            let mut k: usize = 0;
            assert(task_specs(tasks@) =~= named + directory_tasks(path_bytes(paths@)).take(0));
            while k < paths.len()
                invariant
                    0 <= k <= paths@.len(),
                    task_specs(tasks@) == named + directory_tasks(path_bytes(paths@)).take(
                        k as int,
                    ),
                decreases paths@.len() - k,
            {
                let ghost so_far = task_specs(tasks@);
                let ghost all = directory_tasks(path_bytes(paths@));
                let task: HashTask = HashTask::Directory(paths[k].copy());
                tasks.push(task);
                assert(task_specs(tasks@) =~= so_far.push(task@));
                assert(all[k as int] == task@);
                assert(named + all.take(k + 1) =~= (named + all.take(k as int)).push(task@));
                k = k + 1;
            }
            proof {
                let all = directory_tasks(path_bytes(paths@));
                assert(all.take(k as int) =~= all);
                assert(sources[i as int] == (name, path_bytes(paths@)));
                assert(sources.take(i + 1).drop_last() =~= sources.take(i as int));
                assert(named + all =~= before + (seq![TaskSpec::Text(name)] + all));
            }
            i = i + 1;
        }
        assert(sources.take(i as int) =~= sources);
        let ghost before = task_specs(tasks@);
        tasks.push(HashTask::Directory(self.sysroot.copy()));
        match &self.tool_overlay {
            Some(path) => {
                tasks.push(HashTask::Byte(1));
                tasks.push(HashTask::Directory(path.copy()));
            },
            None => {
                tasks.push(HashTask::Byte(0));
            },
        }
        assert(task_specs(tasks@) =~= deps_tasks(self@));
        DepsHash::new(tasks)
    }
}

// ---------------------------------------------------------------------------
// Laws
// ---------------------------------------------------------------------------

/// A program's own variables win over those of the environment, and the environment's are there
/// for every program that does not set them itself.
pub proof fn lemma_own_variables_win(
    env: ExecEnvSpec,
    environment: Map<Seq<char>, Seq<char>>,
    name: Seq<char>,
)
    ensures
        environment.contains_key(name) ==> env_variables(env, environment).contains_pair(
            name,
            environment[name],
        ),
        !environment.contains_key("SOURCES_DIR"@) ==> env_variables(
            env,
            environment,
        ).contains_pair("SOURCES_DIR"@, EXECENV_SOURCES_DIRECTORY_PATH@),
        !environment.contains_key("SYSROOT_DIR"@) ==> env_variables(
            env,
            environment,
        ).contains_pair("SYSROOT_DIR"@, EXECENV_SYSROOT_DIRECTORY_PATH@),
        !environment.contains_key("PARALLELISM"@) ==> env_variables(
            env,
            environment,
        ).contains_pair("PARALLELISM"@, decimal_text(env.parallelism)),
{
    reveal_strlit("SOURCES_DIR");
    reveal_strlit("SYSROOT_DIR");
    reveal_strlit("PARALLELISM");
    assert("SOURCES_DIR"@[1] != "SYSROOT_DIR"@[1]);
    assert("PARALLELISM"@[0] != "SOURCES_DIR"@[0]);
    assert("PARALLELISM"@[0] != "SYSROOT_DIR"@[0]);
}

/// What is mounted cannot be written to.
pub open spec fn is_read_only(kind: MountKindSpec) -> bool {
    match kind {
        MountKindSpec::Bind { from, read_only, is_file } => read_only,
        MountKindSpec::Remount { readonly } => readonly,
        MountKindSpec::FS { fstype } => false,
        MountKindSpec::OverlayFS { lower_directories, upper_directory } => upper_directory is None,
    }
}

/// No program in an environment can write to the sources, and the last thing that is done to the
/// mounts is to close the directory that holds them all for writing.
pub proof fn lemma_sources_cannot_be_written(env: ExecEnvSpec, mounts: Seq<MountSpec>, i: int)
    requires
        0 <= i < env.sources.len(),
    ensures
        env_mounts(env, mounts)[i + 1] == source_mount(env.sources[i].0, env.sources[i].1),
        is_read_only(env_mounts(env, mounts)[i + 1].kind),
        env_mounts(env, mounts).last() == remount_spec(),
{
}

/// The program's own mounts come after all others, in their order, so that they can lie on top.
pub proof fn lemma_own_mounts_come_last(env: ExecEnvSpec, mounts: Seq<MountSpec>)
    ensures
        env_mounts(env, mounts).len() == mounts.len() + env.sources.len() + 3,
        env_mounts(env, mounts).subrange(
            env.sources.len() as int + 2,
            env.sources.len() as int + 2 + mounts.len(),
        ) == mounts,
{
    assert(env_mounts(env, mounts).subrange(
        env.sources.len() as int + 2,
        env.sources.len() as int + 2 + mounts.len(),
    ) =~= mounts);
}

/// What is in an environment, where the files in directories are given: the trees of each source,
/// the tree of the sysroot, and the tree of the tools if there are any.
#[verifier::ext_equal]
pub struct ContentsSpec {
    pub sources: Seq<(Seq<char>, Seq<Seq<(Seq<u8>, Node)>>)>,
    pub sysroot: Seq<(Seq<u8>, Node)>,
    pub tools: Option<Seq<(Seq<u8>, Node)>>,
}

/// The trees in directories.
pub open spec fn trees_in(
    paths: Seq<Seq<u8>>,
    files: spec_fn(Seq<u8>) -> Seq<(Seq<u8>, Node)>,
) -> Seq<Seq<(Seq<u8>, Node)>> {
    paths.map_values(|p: Seq<u8>| files(p))
}

/// What is in an environment.
pub open spec fn contents_of(
    env: ExecEnvSpec,
    files: spec_fn(Seq<u8>) -> Seq<(Seq<u8>, Node)>,
) -> ContentsSpec {
    ContentsSpec {
        sources: env.sources.map_values(
            |s: (Seq<char>, Seq<Seq<u8>>)| (s.0, trees_in(s.1, files)),
        ),
        sysroot: files(env.sysroot),
        tools: match env.tool_overlay {
            None => None,
            Some(path) => Some(files(path)),
        },
    }
}

/// Sources are in the order of their names, and no name occurs twice.
pub open spec fn in_name_order<T>(sources: Seq<(Seq<char>, T)>) -> bool {
    forall|i: int, j: int|
        0 <= i < j < sources.len() ==> name_lt(
            (#[trigger] sources[i]).0,
            (#[trigger] sources[j]).0,
        )
}

/// Two environments hold the same: the same names with the same trees, the same sysroot and the same
/// tools, wherever these are.
pub open spec fn same_contents(a: ContentsSpec, b: ContentsSpec) -> bool {
    &&& forall|i: int| 0 <= i < a.sources.len() ==> b.sources.contains(#[trigger] a.sources[i])
    &&& forall|i: int| 0 <= i < b.sources.len() ==> a.sources.contains(#[trigger] b.sources[i])
    &&& a.sysroot == b.sysroot
    &&& a.tools == b.tools
}

proof fn lemma_same_order<T>(a: Seq<(Seq<char>, T)>, b: Seq<(Seq<char>, T)>)
    requires
        in_name_order(a),
        in_name_order(b),
        forall|i: int| 0 <= i < a.len() ==> b.contains(#[trigger] a[i]),
        forall|i: int| 0 <= i < b.len() ==> a.contains(#[trigger] b[i]),
    ensures
        a == b,
    decreases a.len(),
{
    if a.len() == 0 {
        if b.len() > 0 {
            assert(a.contains(b[0]));
        }
        assert(a =~= b);
    } else {
        assert(b.contains(a[a.len() - 1]));
        let la = a[a.len() - 1];
        let j = choose|j: int| 0 <= j < b.len() && b[j] == la;
        let lb = b[b.len() - 1];
        assert(a.contains(lb));
        let i = choose|i: int| 0 <= i < a.len() && a[i] == lb;
        if j < b.len() - 1 {
            assert(name_lt(b[j].0, b[b.len() - 1].0));
            if i < a.len() - 1 {
                assert(name_lt(a[i].0, a[a.len() - 1].0));
                lemma_lex_transitive(encode_utf8(la.0), encode_utf8(lb.0), encode_utf8(la.0));
            }
            lemma_lex_irreflexive(encode_utf8(la.0));
        }
        assert(la == lb);
        let fa = a.drop_last();
        let fb = b.drop_last();
        lemma_lex_irreflexive(encode_utf8(la.0));
        assert forall|k: int| 0 <= k < fa.len() implies fb.contains(#[trigger] fa[k]) by {
            assert(b.contains(a[k]));
            let m = choose|m: int| 0 <= m < b.len() && b[m] == a[k];
            assert(name_lt(a[k].0, a[a.len() - 1].0));
            assert(m < b.len() - 1);
            assert(fb[m] == fa[k]);
        }
        assert forall|k: int| 0 <= k < fb.len() implies fa.contains(#[trigger] fb[k]) by {
            assert(a.contains(b[k]));
            let m = choose|m: int| 0 <= m < a.len() && a[m] == b[k];
            assert(name_lt(b[k].0, b[b.len() - 1].0));
            assert(m < a.len() - 1);
            assert(fa[m] == fb[k]);
        }
        lemma_same_order(fa, fb);
        assert(a =~= fa.push(la));
        assert(b =~= fb.push(lb));
    }
}

/// The bytes of a thing, where the files in directories are given.
pub open spec fn piece(task: TaskSpec, files: spec_fn(Seq<u8>) -> Seq<(Seq<u8>, Node)>) -> Seq<u8> {
    match task {
        TaskSpec::Text(text) => enc_text(text),
        TaskSpec::Byte(byte) => seq![byte],
        TaskSpec::Directory(path) => enc_entries(Seq::empty(), files(path)),
    }
}

spec fn same_pieces(
    s: Seq<TaskSpec>,
    fs: spec_fn(Seq<u8>) -> Seq<(Seq<u8>, Node)>,
    t: Seq<TaskSpec>,
    ft: spec_fn(Seq<u8>) -> Seq<(Seq<u8>, Node)>,
) -> bool {
    &&& s.len() == t.len()
    &&& forall|i: int| 0 <= i < s.len() ==> piece(#[trigger] s[i], fs) == piece(t[i], ft)
}

proof fn lemma_same_pieces(
    s: Seq<TaskSpec>,
    fs: spec_fn(Seq<u8>) -> Seq<(Seq<u8>, Node)>,
    t: Seq<TaskSpec>,
    ft: spec_fn(Seq<u8>) -> Seq<(Seq<u8>, Node)>,
)
    requires
        same_pieces(s, fs, t, ft),
    ensures
        enc_tasks(s, fs) == enc_tasks(t, ft),
    decreases s.len(),
{
    if s.len() > 0 {
        let sr = s.skip(1);
        let tr = t.skip(1);
        assert forall|i: int| 0 <= i < sr.len() implies piece(#[trigger] sr[i], fs) == piece(
            tr[i],
            ft,
        ) by {
            assert(sr[i] == s[i + 1]);
            assert(tr[i] == t[i + 1]);
        }
        lemma_same_pieces(sr, fs, tr, ft);
        assert(piece(s[0], fs) == piece(t[0], ft));
    }
}

proof fn lemma_same_sources(
    a: Seq<(Seq<char>, Seq<Seq<u8>>)>,
    fa: spec_fn(Seq<u8>) -> Seq<(Seq<u8>, Node)>,
    b: Seq<(Seq<char>, Seq<Seq<u8>>)>,
    fb: spec_fn(Seq<u8>) -> Seq<(Seq<u8>, Node)>,
)
    requires
        a.len() == b.len(),
        forall|i: int|
            0 <= i < a.len() ==> (#[trigger] a[i]).0 == b[i].0 && trees_in(a[i].1, fa) == trees_in(
                b[i].1,
                fb,
            ),
    ensures
        same_pieces(source_tasks(a), fa, source_tasks(b), fb),
    decreases a.len(),
{
    if a.len() > 0 {
        let ra = a.drop_last();
        let rb = b.drop_last();
        assert forall|i: int| 0 <= i < ra.len() implies (#[trigger] ra[i]).0 == rb[i].0 && trees_in(
            ra[i].1,
            fa,
        ) == trees_in(rb[i].1, fb) by {
            assert(ra[i] == a[i]);
            assert(rb[i] == b[i]);
        }
        lemma_same_sources(ra, fa, rb, fb);
        let last = a.len() - 1;
        assert(a[last].0 == b[last].0);
        let pa = a[last].1;
        let pb = b[last].1;
        assert(trees_in(pa, fa).len() == pa.len());
        assert(trees_in(pb, fb).len() == pb.len());
        let sa = source_tasks(ra);
        let sb = source_tasks(rb);
        let s = source_tasks(a);
        let t = source_tasks(b);
        assert forall|i: int| 0 <= i < s.len() implies piece(#[trigger] s[i], fa) == piece(
            t[i],
            fb,
        ) by {
            if i < sa.len() {
                assert(s[i] == sa[i]);
                assert(t[i] == sb[i]);
            } else if i == sa.len() {
                assert(s[i] == TaskSpec::Text(a[last].0));
                assert(t[i] == TaskSpec::Text(b[last].0));
            } else {
                let k = i - sa.len() - 1;
                assert(s[i] == TaskSpec::Directory(pa[k]));
                assert(t[i] == TaskSpec::Directory(pb[k]));
                assert(trees_in(pa, fa)[k] == fa(pa[k]));
                assert(trees_in(pb, fb)[k] == fb(pb[k]));
            }
        }
    }
}

/// The bytes behind the hash of an environment depend on what is in it only: environments with the
/// same names, the same files of each source, the same sysroot and the same tools have the same
/// bytes, wherever these lie.
pub proof fn lemma_same_contents_same_bytes(
    a: ExecEnvSpec,
    fa: spec_fn(Seq<u8>) -> Seq<(Seq<u8>, Node)>,
    b: ExecEnvSpec,
    fb: spec_fn(Seq<u8>) -> Seq<(Seq<u8>, Node)>,
)
    requires
        in_name_order(a.sources),
        in_name_order(b.sources),
        same_contents(contents_of(a, fa), contents_of(b, fb)),
    ensures
        enc_tasks(deps_tasks(a), fa) == enc_tasks(deps_tasks(b), fb),
{
    let ca = contents_of(a, fa).sources;
    let cb = contents_of(b, fb).sources;
    assert forall|i: int, j: int| 0 <= i < j < ca.len() implies name_lt(
        (#[trigger] ca[i]).0,
        (#[trigger] ca[j]).0,
    ) by {
        assert(name_lt(a.sources[i].0, a.sources[j].0));
    }
    assert forall|i: int, j: int| 0 <= i < j < cb.len() implies name_lt(
        (#[trigger] cb[i]).0,
        (#[trigger] cb[j]).0,
    ) by {
        assert(name_lt(b.sources[i].0, b.sources[j].0));
    }
    lemma_same_order(ca, cb);
    assert(ca.len() == a.sources.len());
    assert(cb.len() == b.sources.len());
    assert forall|i: int| 0 <= i < a.sources.len() implies (#[trigger] a.sources[i]).0
        == b.sources[i].0 && trees_in(a.sources[i].1, fa) == trees_in(b.sources[i].1, fb) by {
        assert(ca[i] == (a.sources[i].0, trees_in(a.sources[i].1, fa)));
        assert(cb[i] == (b.sources[i].0, trees_in(b.sources[i].1, fb)));
    }
    lemma_same_sources(a.sources, fa, b.sources, fb);
    let s = deps_tasks(a);
    let t = deps_tasks(b);
    let n = source_tasks(a.sources).len();
    assert forall|i: int| 0 <= i < s.len() implies piece(#[trigger] s[i], fa) == piece(t[i], fb) by {
        if i < n {
            assert(s[i] == source_tasks(a.sources)[i]);
            assert(t[i] == source_tasks(b.sources)[i]);
        } else if i == n {
            assert(s[i] == TaskSpec::Directory(a.sysroot));
            assert(t[i] == TaskSpec::Directory(b.sysroot));
        }
    }
    lemma_same_pieces(s, fa, t, fb);
}

/// Environments that hold the same have the same hash: however the directories of each were walked,
/// once everything has been fed the digests are the same.
pub proof fn lemma_same_contents_same_hash(
    a: ExecEnvSpec,
    fa: spec_fn(Seq<u8>) -> Seq<(Seq<u8>, Node)>,
    a_states: Seq<DepsState>,
    a_walks: Seq<Seq<Turn>>,
    b: ExecEnvSpec,
    fb: spec_fn(Seq<u8>) -> Seq<(Seq<u8>, Node)>,
    b_states: Seq<DepsState>,
    b_walks: Seq<Seq<Turn>>,
)
    requires
        in_name_order(a.sources),
        in_name_order(b.sources),
        same_contents(contents_of(a, fa), contents_of(b, fb)),
        is_feeding(deps_tasks(a), a_states, a_walks, fa),
        is_feeding(deps_tasks(b), b_states, b_walks, fb),
    ensures
        xxh3_128(a_states.last().walk.fed) == xxh3_128(b_states.last().walk.fed),
{
    lemma_feeding_is_exact(deps_tasks(a), a_states, a_walks, fa);
    lemma_feeding_is_exact(deps_tasks(b), b_states, b_walks, fb);
    lemma_same_contents_same_bytes(a, fa, b, fb);
}

} // verus!

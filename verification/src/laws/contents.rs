//! What the hash of an environment depends on: each part of what is in it counts.

use crate::depshash::{enc_tasks, TaskSpec};
use crate::execenv::{deps_tasks, directory_tasks, source_tasks, ExecEnvSpec};
use crate::util::feed::enc_text;
use crate::util::tree::{enc_entries, is_tree, Node};
use crate::util::tree_exact::{is_real, lemma_tree_bytes_are_exact, paths_fit};
use crate::util::unambiguous::lemma_text_cut;
use vstd::prelude::*;

verus! {

/// The files of a directory, as they can be in a file system.
pub open spec fn are_files(entries: Seq<(Seq<u8>, Node)>) -> bool {
    &&& is_tree(Node::Directory(entries))
    &&& is_real(Node::Directory(entries))
    &&& paths_fit(entries)
}

proof fn lemma_tasks_concat(
    s: Seq<TaskSpec>,
    t: Seq<TaskSpec>,
    files: spec_fn(Seq<u8>) -> Seq<(Seq<u8>, Node)>,
)
    ensures
        enc_tasks(s + t, files) == enc_tasks(s, files) + enc_tasks(t, files),
    decreases s.len(),
{
    if s.len() == 0 {
        assert(s + t =~= t);
        assert(enc_tasks(s, files) + enc_tasks(t, files) =~= enc_tasks(t, files));
    } else {
        lemma_tasks_concat(s.skip(1), t, files);
        assert((s + t).skip(1) =~= s.skip(1) + t);
        assert((s + t)[0] == s[0]);
        assert(enc_tasks(s + t, files) =~= enc_tasks(s, files) + enc_tasks(t, files));
    }
}

proof fn lemma_one_task(task: TaskSpec, files: spec_fn(Seq<u8>) -> Seq<(Seq<u8>, Node)>)
    ensures
        enc_tasks(seq![task], files) == (match task {
            TaskSpec::Text(text) => enc_text(text),
            TaskSpec::Byte(byte) => seq![byte],
            TaskSpec::Directory(path) => enc_entries(Seq::empty(), files(path)),
        }),
{
    let rest = seq![task].skip(1);
    assert(rest.len() == 0);
    assert(enc_tasks(rest, files) =~= Seq::<u8>::empty());
    assert(enc_tasks(seq![task], files) =~= (match task {
        TaskSpec::Text(text) => enc_text(text),
        TaskSpec::Byte(byte) => seq![byte],
        TaskSpec::Directory(path) => enc_entries(Seq::empty(), files(path)),
    }));
}

proof fn lemma_source_tasks_concat(
    a: Seq<(Seq<char>, Seq<Seq<u8>>)>,
    b: Seq<(Seq<char>, Seq<Seq<u8>>)>,
)
    ensures
        source_tasks(a + b) == source_tasks(a) + source_tasks(b),
    decreases b.len(),
{
    if b.len() == 0 {
        assert(a + b =~= a);
        assert(source_tasks(a) + source_tasks(b) =~= source_tasks(a));
    } else {
        lemma_source_tasks_concat(a, b.drop_last());
        assert((a + b).drop_last() =~= a + b.drop_last());
        assert(source_tasks(a + b) =~= source_tasks(a) + source_tasks(b));
    }
}

proof fn lemma_cut_both(x: Seq<u8>, m: Seq<u8>, n: Seq<u8>, y: Seq<u8>)
    requires
        x + m + y == x + n + y,
    ensures
        m == n,
{
    let a = x + m + y;
    let b = x + n + y;
    assert(a.len() == x.len() + m.len() + y.len());
    assert(b.len() == x.len() + n.len() + y.len());
    assert(m =~= a.subrange(x.len() as int, (x.len() + m.len()) as int));
    assert(n =~= b.subrange(x.len() as int, (x.len() + n.len()) as int));
}

/// The part of the bytes of an environment that its tools make up.
spec fn tool_tasks(env: ExecEnvSpec) -> Seq<TaskSpec> {
    match env.tool_overlay {
        None => seq![TaskSpec::Byte(0)],
        Some(path) => seq![TaskSpec::Byte(1), TaskSpec::Directory(path)],
    }
}

proof fn lemma_bytes_of_an_environment(
    env: ExecEnvSpec,
    files: spec_fn(Seq<u8>) -> Seq<(Seq<u8>, Node)>,
)
    ensures
        enc_tasks(deps_tasks(env), files) == enc_tasks(source_tasks(env.sources), files)
            + enc_entries(Seq::empty(), files(env.sysroot)) + enc_tasks(tool_tasks(env), files),
{
    let sources = source_tasks(env.sources);
    let sysroot = seq![TaskSpec::Directory(env.sysroot)];
    assert(deps_tasks(env) =~= sources + sysroot + tool_tasks(env));
    lemma_tasks_concat(sources + sysroot, tool_tasks(env), files);
    lemma_tasks_concat(sources, sysroot, files);
    lemma_one_task(TaskSpec::Directory(env.sysroot), files);
}

/// What is in the sysroot counts for the hash of an environment: environments that differ in nothing
/// else have the same bytes behind their hashes only if the same files are in their sysroots.
pub proof fn lemma_sysroot_counts(
    env: ExecEnvSpec,
    sysroot: Seq<u8>,
    files: spec_fn(Seq<u8>) -> Seq<(Seq<u8>, Node)>,
)
    requires
        are_files(files(env.sysroot)),
        are_files(files(sysroot)),
        enc_tasks(deps_tasks(env), files) == enc_tasks(
            deps_tasks(ExecEnvSpec { sysroot, ..env }),
            files,
        ),
    ensures
        files(env.sysroot) == files(sysroot),
{
    let other = ExecEnvSpec { sysroot, ..env };
    lemma_bytes_of_an_environment(env, files);
    lemma_bytes_of_an_environment(other, files);
    lemma_cut_both(
        enc_tasks(source_tasks(env.sources), files),
        enc_entries(Seq::empty(), files(env.sysroot)),
        enc_entries(Seq::empty(), files(sysroot)),
        enc_tasks(tool_tasks(env), files),
    );
    lemma_tree_bytes_are_exact(files(env.sysroot), files(sysroot));
}

/// The tools count for the hash of an environment: environments that differ in nothing else have the
/// same bytes behind their hashes only if both have tools, and the same ones, or neither has any.
pub proof fn lemma_tools_count(
    env: ExecEnvSpec,
    tool_overlay: Option<Seq<u8>>,
    files: spec_fn(Seq<u8>) -> Seq<(Seq<u8>, Node)>,
)
    requires
        env.tool_overlay is Some ==> are_files(files(env.tool_overlay->0)),
        tool_overlay is Some ==> are_files(files(tool_overlay->0)),
        enc_tasks(deps_tasks(env), files) == enc_tasks(
            deps_tasks(ExecEnvSpec { tool_overlay, ..env }),
            files,
        ),
    ensures
        env.tool_overlay is Some <==> tool_overlay is Some,
        tool_overlay is Some ==> files(env.tool_overlay->0) == files(tool_overlay->0),
{
    let other = ExecEnvSpec { tool_overlay, ..env };
    lemma_bytes_of_an_environment(env, files);
    lemma_bytes_of_an_environment(other, files);
    let none = Seq::<u8>::empty();
    let x = enc_tasks(source_tasks(env.sources), files) + enc_entries(
        Seq::empty(),
        files(env.sysroot),
    );
    let m = enc_tasks(tool_tasks(env), files);
    let n = enc_tasks(tool_tasks(other), files);
    assert(x + m + none =~= x + m);
    assert(x + n + none =~= x + n);
    lemma_cut_both(x, m, n, none);
    lemma_tool_bytes(env, files);
    lemma_tool_bytes(other, files);
    assert(m[0] == n[0]);
    if tool_overlay is Some {
        assert(m.skip(1) =~= enc_entries(Seq::empty(), files(env.tool_overlay->0)));
        assert(n.skip(1) =~= enc_entries(Seq::empty(), files(tool_overlay->0)));
        lemma_tree_bytes_are_exact(files(env.tool_overlay->0), files(tool_overlay->0));
    }
}

proof fn lemma_tool_bytes(env: ExecEnvSpec, files: spec_fn(Seq<u8>) -> Seq<(Seq<u8>, Node)>)
    ensures
        enc_tasks(tool_tasks(env), files) == (match env.tool_overlay {
            None => seq![0u8],
            Some(path) => seq![1u8] + enc_entries(Seq::empty(), files(path)),
        }),
{
    match env.tool_overlay {
        None => {
            lemma_one_task(TaskSpec::Byte(0), files);
        },
        Some(path) => {
            lemma_one_task(TaskSpec::Byte(1), files);
            lemma_one_task(TaskSpec::Directory(path), files);
            lemma_tasks_concat(
                seq![TaskSpec::Byte(1)],
                seq![TaskSpec::Directory(path)],
                files,
            );
            assert(tool_tasks(env) =~= seq![TaskSpec::Byte(1)] + seq![TaskSpec::Directory(path)]);
        },
    }
}

/// The sources count for the hash of an environment: environments that differ only in the name of one
/// source and in one of its entries have the same bytes behind their hashes only if the name is the
/// same and the same files are in the entry.
pub proof fn lemma_sources_count(
    env: ExecEnvSpec,
    i: int,
    name: Seq<char>,
    k: int,
    path: Seq<u8>,
    files: spec_fn(Seq<u8>) -> Seq<(Seq<u8>, Node)>,
)
    requires
        0 <= i < env.sources.len(),
        0 <= k < env.sources[i].1.len(),
        are_files(files(env.sources[i].1[k])),
        are_files(files(path)),
        enc_tasks(deps_tasks(env), files) == enc_tasks(
            deps_tasks(
                ExecEnvSpec {
                    sources: env.sources.update(i, (name, env.sources[i].1.update(k, path))),
                    ..env
                },
            ),
            files,
        ),
    ensures
        env.sources[i].0 == name,
        files(env.sources[i].1[k]) == files(path),
{
    let paths = env.sources[i].1;
    let changed = (name, paths.update(k, path));
    let other = ExecEnvSpec { sources: env.sources.update(i, changed), ..env };
    lemma_bytes_of_an_environment(env, files);
    lemma_bytes_of_an_environment(other, files);
    let front = env.sources.take(i);
    let back = env.sources.skip(i + 1);
    lemma_bytes_around_a_source(front, env.sources[i], back, files);
    lemma_bytes_around_a_source(front, changed, back, files);
    assert(env.sources =~= front + seq![env.sources[i]] + back);
    assert(other.sources =~= front + seq![changed] + back);
    let x = enc_tasks(source_tasks(front), files);
    let y0 = enc_tasks(source_tasks(back), files);
    let rest = enc_entries(Seq::empty(), files(env.sysroot)) + enc_tasks(tool_tasks(env), files);
    let m = enc_text(env.sources[i].0) + enc_tasks(directory_tasks(paths), files);
    let n = enc_text(name) + enc_tasks(directory_tasks(changed.1), files);
    assert(enc_tasks(deps_tasks(env), files) =~= x + m + (y0 + rest));
    assert(enc_tasks(deps_tasks(other), files) =~= x + n + (y0 + rest));
    lemma_cut_both(x, m, n, y0 + rest);
    lemma_text_cut(
        env.sources[i].0,
        enc_tasks(directory_tasks(paths), files),
        name,
        enc_tasks(directory_tasks(changed.1), files),
    );
    let before = directory_tasks(paths.take(k));
    let after = directory_tasks(paths.skip(k + 1));
    lemma_bytes_around_a_directory(paths.take(k), paths[k], paths.skip(k + 1), files);
    lemma_bytes_around_a_directory(paths.take(k), path, paths.skip(k + 1), files);
    assert(paths =~= paths.take(k) + seq![paths[k]] + paths.skip(k + 1));
    assert(changed.1 =~= paths.take(k) + seq![path] + paths.skip(k + 1));
    lemma_cut_both(
        enc_tasks(before, files),
        enc_entries(Seq::empty(), files(paths[k])),
        enc_entries(Seq::empty(), files(path)),
        enc_tasks(after, files),
    );
    lemma_tree_bytes_are_exact(files(paths[k]), files(path));
}

proof fn lemma_bytes_around_a_source(
    front: Seq<(Seq<char>, Seq<Seq<u8>>)>,
    source: (Seq<char>, Seq<Seq<u8>>),
    back: Seq<(Seq<char>, Seq<Seq<u8>>)>,
    files: spec_fn(Seq<u8>) -> Seq<(Seq<u8>, Node)>,
)
    ensures
        enc_tasks(source_tasks(front + seq![source] + back), files) == enc_tasks(
            source_tasks(front),
            files,
        ) + (enc_text(source.0) + enc_tasks(directory_tasks(source.1), files)) + enc_tasks(
            source_tasks(back),
            files,
        ),
{
    lemma_source_tasks_concat(front + seq![source], back);
    lemma_source_tasks_concat(front, seq![source]);
    let own = seq![TaskSpec::Text(source.0)] + directory_tasks(source.1);
    assert(seq![source].last() == source);
    assert(source_tasks(seq![source].drop_last()) =~= Seq::<TaskSpec>::empty());
    assert(source_tasks(seq![source]) =~= own);
    lemma_tasks_concat(source_tasks(front) + own, source_tasks(back), files);
    lemma_tasks_concat(source_tasks(front), own, files);
    lemma_tasks_concat(seq![TaskSpec::Text(source.0)], directory_tasks(source.1), files);
    lemma_one_task(TaskSpec::Text(source.0), files);
}

proof fn lemma_bytes_around_a_directory(
    front: Seq<Seq<u8>>,
    path: Seq<u8>,
    back: Seq<Seq<u8>>,
    files: spec_fn(Seq<u8>) -> Seq<(Seq<u8>, Node)>,
)
    ensures
        enc_tasks(directory_tasks(front + seq![path] + back), files) == enc_tasks(
            directory_tasks(front),
            files,
        ) + enc_entries(Seq::empty(), files(path)) + enc_tasks(directory_tasks(back), files),
{
    let own = seq![TaskSpec::Directory(path)];
    assert(directory_tasks(front + seq![path] + back) =~= directory_tasks(front) + own
        + directory_tasks(back));
    lemma_tasks_concat(directory_tasks(front) + own, directory_tasks(back), files);
    lemma_tasks_concat(directory_tasks(front), own, files);
    lemma_one_task(TaskSpec::Directory(path), files);
}

} // verus!

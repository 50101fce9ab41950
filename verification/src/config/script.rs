//! The scripts that configurations carry.

use crate::util::feed::{enc_text, enc_u64, feed_text, feed_u64};
use crate::util::text::texts;
use crate::util::xxh3::{xxh3_fed, Xxh3Hasher};
use vstd::prelude::*;

verus! {

/// Runs before every bash script: collects the `OPTION_*` variables into the array `OPTIONS`.
pub const BASH_PREPROCESS: &'static str =
    "\n    declare -A OPTIONS\n    for key in \"${!OPTION_@}\"; do\n        OPTIONS[\"${key#\"OPTION_\"}\"]=\"${!key}\"\n    done\n    unset OPTION_PREFIX\n";

/// The language of a script.
#[derive(Debug, Clone, Copy)]
pub enum ScriptLanguage {
    Bash,
    Python,
}

/// A script.
#[derive(Debug)]
pub struct Script {
    pub language: ScriptLanguage,
    pub text: String,
}

/// The command line, as a list of arguments, that runs a script text in a language.
pub open spec fn command_line(language: ScriptLanguage, text: Seq<char>) -> Seq<Seq<char>> {
    match language {
        ScriptLanguage::Python => seq!["python3"@, "-c"@, text],
        ScriptLanguage::Bash => seq!["bash"@, "-e"@, "-c"@, BASH_PREPROCESS@ + text],
    }
}

/// The byte form of a script: the number of its language, then its text.
pub open spec fn enc_script(script: Script) -> Seq<u8> {
    enc_u64(
        match script.language {
            ScriptLanguage::Bash => 0,
            ScriptLanguage::Python => 1,
        },
    ) + enc_text(script.text@)
}

/// The byte form of a script that may be absent: 0, or 1 and the script's own form.
pub open spec fn enc_script_option(script: Option<Script>) -> Seq<u8> {
    match script {
        None => enc_u64(0),
        Some(script) => enc_u64(1) + enc_script(script),
    }
}

impl Script {
    /// A script with the given text.
    pub fn new(language: ScriptLanguage, text: &str) -> (r: Script)
        ensures
            r.language == language,
            r.text@ == text@,
    {
        Script { language, text: text.to_string() }
    }

    /// A bash script.
    pub fn bash(text: &str) -> (r: Script)
        ensures
            r.language == ScriptLanguage::Bash,
            r.text@ == text@,
    {
        Script::new(ScriptLanguage::Bash, text)
    }

    /// The command line that runs the script.
    pub fn command(&self) -> (r: Vec<String>)
        ensures
            texts(r@) == command_line(self.language, self.text@),
    {
        let mut args: Vec<String> = Vec::new();
        match self.language {
            ScriptLanguage::Python => {
                args.push("python3".to_string());
                args.push("-c".to_string());
                args.push(self.text.clone());
            },
            ScriptLanguage::Bash => {
                args.push("bash".to_string());
                args.push("-e".to_string());
                args.push("-c".to_string());
                args.push(BASH_PREPROCESS.to_string().concat(self.text.as_str()));
            },
        }
        assert(texts(args@) =~= command_line(self.language, self.text@));
        args
    }
}

/// The script text is always the end of the last argument, whatever the language.
pub proof fn lemma_command_ends_with_text(language: ScriptLanguage, text: Seq<char>)
    ensures
        ({
            let last = command_line(language, text).last();
            text.len() <= last.len() && last.skip(last.len() - text.len()) == text
        }),
{
    let last = command_line(language, text).last();
    assert(last.skip(last.len() - text.len()) =~= text);
}

/// Feeds a script.
pub fn feed_script(hasher: &mut Xxh3Hasher, script: &Script)
    ensures
        xxh3_fed(*final(hasher)) == xxh3_fed(*old(hasher)) + enc_script(*script),
{
    feed_u64(
        hasher,
        match script.language {
            ScriptLanguage::Bash => 0,
            ScriptLanguage::Python => 1,
        },
    );
    feed_text(hasher, script.text.as_str());
    assert(xxh3_fed(*hasher) =~= xxh3_fed(*old(hasher)) + enc_script(*script));
}

/// Feeds a script that may be absent.
pub fn feed_script_option(hasher: &mut Xxh3Hasher, script: &Option<Script>)
    ensures
        xxh3_fed(*final(hasher)) == xxh3_fed(*old(hasher)) + enc_script_option(*script),
{
    match script {
        None => feed_u64(hasher, 0),
        Some(script) => {
            feed_u64(hasher, 1);
            feed_script(hasher, script);
            assert(xxh3_fed(*hasher) =~= xxh3_fed(*old(hasher)) + (enc_u64(1) + enc_script(
                *script,
            )));
        },
    }
}

} // verus!

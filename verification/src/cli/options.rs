//! Options that are given as `KEY=VALUE`.

use crate::util::text::chars_of;
use vstd::prelude::*;

verus! {

/// What is said of an option without `=`.
pub open spec fn no_equals_text(text: Seq<char>) -> Seq<char> {
    "invalid KEY=VALUE: no `=` found in `"@ + text + "`"@
}

/// Takes `KEY=VALUE` apart at its first `=`.
pub fn parse_kv(str: &str) -> (r: Result<(String, String), String>)
    ensures
        match r {
            Ok((key, value)) => str@ == key@ + seq!['='] + value@ && !key@.contains('='),
            Err(message) => !str@.contains('=') && message@ == no_equals_text(str@),
        },
{
    let chars: Vec<char> = chars_of(str);
    let mut i: usize = 0;
    while i < chars.len()
        invariant
            0 <= i <= chars@.len(),
            chars@ == str@,
            forall|k: int| 0 <= k < i ==> #[trigger] str@[k] != '=',
        decreases chars@.len() - i,
    {
        if chars[i] == '=' {
            let key: &str = str.substring_char(0, i);
            let value: &str = str.substring_char(i + 1, chars.len());
            assert(str@ =~= key@ + seq!['='] + value@);
            assert forall|k: int| 0 <= k < key@.len() implies key@[k] != '=' by {
                assert(str@[k] != '=');
            }
            return Ok((key.to_string(), value.to_string()));
        }
        i = i + 1;
    }
    let mut message: String = "invalid KEY=VALUE: no `=` found in `".to_string();
    message.append(str);
    message.append("`");
    Err(message)
}

/// There is only one way to take a text apart at its first `=`, so that an option means one key and
/// one value.
pub proof fn lemma_option_is_unambiguous(
    k1: Seq<char>,
    v1: Seq<char>,
    k2: Seq<char>,
    v2: Seq<char>,
)
    requires
        !k1.contains('='),
        !k2.contains('='),
        k1 + seq!['='] + v1 == k2 + seq!['='] + v2,
    ensures
        k1 == k2,
        v1 == v2,
{
    let a = k1 + seq!['='] + v1;
    let b = k2 + seq!['='] + v2;
    if k1.len() < k2.len() {
        assert(a[k1.len() as int] == '=');
        assert(b[k1.len() as int] == k2[k1.len() as int]);
    } else if k2.len() < k1.len() {
        assert(b[k2.len() as int] == '=');
        assert(a[k2.len() as int] == k1[k2.len() as int]);
    }
    assert(k1 =~= a.take(k1.len() as int));
    assert(k2 =~= b.take(k2.len() as int));
    assert(v1 =~= a.skip(k1.len() as int + 1));
    assert(v2 =~= b.skip(k2.len() as int + 1));
}

} // verus!

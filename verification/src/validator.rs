//! The checks that need nothing but their arguments: the shared secret, the
//! allowlist of function names, and the address of the backend function.

use vstd::prelude::*;
use vstd::string::*;
use crate::text::{chars_of, range_eq, str_eq, trim_bounds, trimmed};

verus! {

/// A key is accepted when it is not empty and is the secret, character for
/// character.
pub open spec fn auth_ok(key: Seq<char>, secret: Seq<char>) -> bool {
    key.len() > 0 && key == secret
}

/// `list[i..j]` is one entry of the comma-separated `list`: it starts at the
/// start of the list or behind a comma, ends at the end of the list or before a
/// comma, and holds no comma.
pub open spec fn is_entry(list: Seq<char>, i: int, j: int) -> bool {
    &&& 0 <= i <= j <= list.len()
    &&& (i == 0 || list[i - 1] == ',')
    &&& (j == list.len() || list[j] == ',')
    &&& forall|k: int| i <= k < j ==> list[k] != ','
}

/// A name is allowed when it is not empty and is, once the entry is trimmed,
/// exactly one entry of the list.
pub open spec fn allowlisted(name: Seq<char>, list: Seq<char>) -> bool {
    &&& name.len() > 0
    &&& exists|i: int, j: int| #[trigger]
        is_entry(list, i, j) && trimmed(list.subrange(i, j)) == name
}

/// `s` without the slashes at its end.
pub open spec fn without_trailing_slashes(s: Seq<char>) -> Seq<char>
    decreases s.len(),
{
    if s.len() > 0 && s.last() == '/' {
        without_trailing_slashes(s.drop_last())
    } else {
        s
    }
}

/// The address of the function `name` under `base`.
pub open spec fn target_url(base: Seq<char>, name: Seq<char>) -> Seq<char> {
    without_trailing_slashes(base) + seq!['/'] + name
}

/// A key that is not empty passes against itself; the empty key passes
/// against nothing; and two strings that differ anywhere never pass.
pub proof fn lemma_auth_exact(key: Seq<char>, secret: Seq<char>)
    ensures
        key.len() > 0 ==> auth_ok(key, key),
        !auth_ok(Seq::<char>::empty(), secret),
        key != secret ==> !auth_ok(key, secret),
{
}

/// Against a list without a comma, which is one entry, exactly one name
/// passes: the list trimmed, unless that is empty. No part of it and nothing
/// longer does.
pub proof fn lemma_allowlist_single_entry(name: Seq<char>, list: Seq<char>)
    requires
        forall|k: int| 0 <= k < list.len() ==> list[k] != ',',
    ensures
        allowlisted(name, list) <==> name.len() > 0 && name == trimmed(list),
{
    assert(list.subrange(0, list.len() as int) =~= list);
    if allowlisted(name, list) {
        let (i, j) = choose|i: int, j: int| #[trigger]
            is_entry(list, i, j) && trimmed(list.subrange(i, j)) == name;
        if i > 0 {
            assert(list[i - 1] == ',');
        }
        if j < list.len() {
            assert(list[j] == ',');
        }
    }
    if name.len() > 0 && name == trimmed(list) {
        assert(is_entry(list, 0, list.len() as int));
    }
}

/// Whether the key that a request brought is the configured secret. An empty
/// key is never accepted, not even for an empty secret.
pub fn verify_auth(auth_key: &str, secret: &str) -> (ok: bool)
    ensures
        ok == auth_ok(auth_key@, secret@),
{
    !auth_key.is_empty() && str_eq(auth_key, secret)
}

/// Whether `function_name` is an entry of the comma-separated `allowed_list`.
/// Entries are trimmed; the name is not. The match is exact.
pub fn verify_allowlist(function_name: &str, allowed_list: &str) -> (ok: bool)
    ensures
        ok == allowlisted(function_name@, allowed_list@),
{
    if function_name.is_empty() {
        return false;
    }
    let name = chars_of(function_name);
    let list = chars_of(allowed_list);
    let n = list.len();
    let mut start: usize = 0;
    loop
        invariant
            n == list.len(),
            list@ == allowed_list@,
            name@ == function_name@,
            name@.len() > 0,
            start <= n,
            start == 0 || list@[start - 1] == ',',
            forall|i: int, j: int|
                #[trigger] is_entry(list@, i, j) && i < start ==> trimmed(list@.subrange(i, j))
                    != name@,
        decreases n - start,
    {
        let mut end: usize = start;
        while end < n && list[end] != ','
            invariant
                n == list.len(),
                start <= end <= n,
                forall|k: int| start <= k < end ==> list@[k] != ',',
            decreases n - end,
        {
            end += 1;
        }
        assert(is_entry(list@, start as int, end as int));
        let (a, b) = trim_bounds(&list, start, end);
        if range_eq(&list, a, b, &name) {
            return true;
        }
        assert forall|i: int, j: int| #[trigger] is_entry(list@, i, j) && i <= end implies trimmed(
            list@.subrange(i, j),
        ) != name@ by {
            if i == start {
                if j < end {
                    assert(list@[j] == ',');
                } else if j > end {
                    assert(list@[end as int] == ',');
                }
            } else if i > start {
                assert(list@[i - 1] == ',');
            }
        }
        if end == n {
            return false;
        }
        start = end + 1;
    }
}

/// The address to call for `function_name`: `base_url` without the slashes at
/// its end, a slash, and the name as it stands.
pub fn build_target_url(base_url: &str, function_name: &str) -> (url: String)
    ensures
        url@ == target_url(base_url@, function_name@),
{
    let base = chars_of(base_url);
    let mut end: usize = base.len();
    assert(base@.subrange(0, end as int) =~= base@);
    while end > 0 && base[end - 1] == '/'
        invariant
            end <= base.len(),
            without_trailing_slashes(base@.subrange(0, end as int)) == without_trailing_slashes(
                base@,
            ),
        decreases end,
    {
        assert(base@.subrange(0, end as int).drop_last() =~= base@.subrange(0, end - 1));
        end -= 1;
    }
    proof {
        reveal_strlit("/");
    }
    let mut url = String::from_str(base_url.substring_char(0, end));
    url.append("/");
    url.append(function_name);
    url
}

} // verus!

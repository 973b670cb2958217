//! Short, URL-friendly, unambiguous ids.
//!
//! Ids are spelled in an alphabet without the visually ambiguous characters
//! `0 1 i l o`, so they are easy to read, to transcribe and to put in a URL. At
//! 16 characters over 31 symbols an id carries about 79 bits of entropy.

use rand::Rng;
use vstd::prelude::*;
use crate::text::{
    ascii_letter, ascii_lower, chars_of, digit, is_ascii_letter, is_digit, to_ascii_lower,
};

verus! {

/// The symbols that ids are spelled in.
pub const ALPHABET: &'static str = "23456789abcdefghjkmnpqrstuvwxyz";

/// The length of a generated hook id.
pub const HOOK_ID_LEN: usize = 16;

/// How much of a hook's name a localpart keeps.
pub const SLUG_MAX: usize = 24;

/// Draws from `rand::thread_rng().gen_range(0..n)`: some number below `n`. It
/// differs from call to call, and `gen_range` panics on an empty range.
#[verifier::external_body]
fn random_below(n: usize) -> (i: usize)
    requires
        n > 0,
    ensures
        i < n,
{
    rand::thread_rng().gen_range(0..n)
}

/// Draws `len` numbers below `n`.
pub(crate) fn draw(len: usize, n: usize) -> (picks: Vec<usize>)
    requires
        n > 0,
    ensures
        picks@.len() == len,
        forall|i: int| 0 <= i < len ==> #[trigger] picks@[i] < n,
{
    let mut picks: Vec<usize> = Vec::new();
    while picks.len() < len
        invariant
            n > 0,
            picks@.len() <= len,
            forall|i: int| 0 <= i < picks@.len() ==> #[trigger] picks@[i] < n,
        decreases len - picks@.len(),
    {
        picks.push(random_below(n));
    }
    picks
}

/// The text whose `i`-th character is the `picks[i]`-th symbol of `alphabet`.
pub open spec fn spelled(alphabet: Seq<char>, picks: Seq<usize>) -> Seq<char> {
    picks.map_values(|p: usize| alphabet[p as int])
}

/// Spells out the symbols that `picks` selects from `alphabet`.
pub fn spell(alphabet: &str, picks: &Vec<usize>) -> (r: String)
    requires
        forall|i: int| 0 <= i < picks@.len() ==> #[trigger] picks@[i] < alphabet@.len(),
    ensures
        r@ == spelled(alphabet@, picks@),
{
    let symbols = chars_of(alphabet);
    let mut r = String::new();
    let mut i: usize = 0;
    while i < picks.len()
        invariant
            i <= picks@.len(),
            symbols@ == alphabet@,
            forall|j: int| 0 <= j < picks@.len() ==> #[trigger] picks@[j] < alphabet@.len(),
            r@ == spelled(alphabet@, picks@.take(i as int)),
        decreases picks@.len() - i,
    {
        r.push(symbols[picks[i]]);
        assert(picks@.take(i + 1) =~= picks@.take(i as int).push(picks@[i as int]));
        assert(spelled(alphabet@, picks@.take(i + 1)) =~= spelled(
            alphabet@,
            picks@.take(i as int),
        ).push(alphabet@[picks@[i as int] as int]));
        i += 1;
    }
    assert(picks@.take(picks@.len() as int) =~= picks@);
    r
}

/// Whether every character of `s` is a symbol of `alphabet`.
pub open spec fn spelled_in(alphabet: Seq<char>, s: Seq<char>) -> bool {
    forall|i: int| 0 <= i < s.len() ==> alphabet.contains(#[trigger] s[i])
}

/// Generates a random id of length `len` in [`ALPHABET`]: [`spell`] of `len`
/// draws.
pub fn gen(len: usize) -> (r: String)
    ensures
        r@.len() == len,
        spelled_in(ALPHABET@, r@),
        exists|picks: Seq<usize>|
            picks.len() == len && (forall|i: int| 0 <= i < len ==> #[trigger] picks[i] < 31) && r@
                == #[trigger] spelled(ALPHABET@, picks),
{
    proof {
        law_alphabet_size();
    }
    let picks = draw(len, 31);
    let r = spell(ALPHABET, &picks);
    proof {
        assert forall|i: int| 0 <= i < r@.len() implies ALPHABET@.contains(#[trigger] r@[i]) by {
            assert(r@[i] == ALPHABET@[picks@[i] as int]);
        }
        assert(r@ == spelled(ALPHABET@, picks@));
    }
    r
}

/// Generates a random hook id.
pub fn hook_id() -> (r: String)
    ensures
        r@.len() == HOOK_ID_LEN,
        spelled_in(ALPHABET@, r@),
{
    gen(HOOK_ID_LEN)
}

/// Whether `c` is an ASCII letter or digit.
pub open spec fn is_alphanumeric(c: char) -> bool {
    is_ascii_letter(c) || is_digit(c)
}

/// The ASCII letters and digits of `name` in lower case, in order.
pub open spec fn slug_chars(name: Seq<char>) -> Seq<char> {
    name.map_values(|c: char| ascii_lower(c)).filter(|c: char| is_alphanumeric(c))
}

/// The first [`SLUG_MAX`] of the ASCII letters and digits of `name`, in lower
/// case.
pub open spec fn slug(name: Seq<char>) -> Seq<char> {
    let all = slug_chars(name);
    if all.len() > SLUG_MAX {
        all.take(SLUG_MAX as int)
    } else {
        all
    }
}

/// The localpart of the sender of a hook: `hook_<slug>_<id>`, or `hook_<id>`
/// where the name leaves nothing.
pub open spec fn localpart_of(name: Seq<char>, id: Seq<char>) -> Seq<char> {
    if slug(name).len() == 0 {
        "hook_"@ + id
    } else {
        "hook_"@ + slug(name) + "_"@ + id
    }
}

fn slugify(name: &str) -> (r: String)
    ensures
        r@ == slug(name@),
{
    let v = chars_of(name);
    let ghost lower = v@.map_values(|c: char| ascii_lower(c));
    let ghost keep = |c: char| is_alphanumeric(c);
    let mut r = String::new();
    let mut n: usize = 0;
    let mut i: usize = 0;
    assert(lower.take(0).filter(keep) =~= Seq::<char>::empty()) by {
        reveal(Seq::filter);
    }
    while i < v.len() && n < SLUG_MAX
        invariant
            i <= v@.len(),
            n <= SLUG_MAX,
            lower == v@.map_values(|c: char| ascii_lower(c)),
            keep == (|c: char| is_alphanumeric(c)),
            r@.len() == n,
            r@ == lower.take(i as int).filter(keep),
        decreases v@.len() - i,
    {
        let c = to_ascii_lower(v[i]);
        assert(lower[i as int] == c);
        assert(lower.take(i + 1) =~= lower.take(i as int).push(c));
        proof {
            lower.take(i as int).lemma_filter_push(c, keep);
        }
        if ascii_letter(c) || digit(c) {
            r.push(c);
            n += 1;
        }
        i += 1;
    }
    proof {
        if i < v@.len() {
            lower.take(i as int).lemma_filter_monotone(lower, keep);
            assert(r@ =~= lower.filter(keep).take(n as int));
            if lower.filter(keep).len() == SLUG_MAX {
                assert(r@ =~= lower.filter(keep));
            }
        } else {
            assert(lower.take(i as int) =~= lower);
        }
    }
    r
}

/// Derives the Matrix localpart of a hook's virtual sender from its name and id,
/// such as `hook_alerts_9k3m`.
pub fn virtual_localpart(name: &str, id: &str) -> (r: String)
    ensures
        r@ == localpart_of(name@, id@),
{
    let part = slugify(name);
    if part.as_str().is_empty() {
        "hook_".to_owned().concat(id)
    } else {
        "hook_".to_owned().concat(part.as_str()).concat("_").concat(id)
    }
}

/// The alphabet has 31 symbols.
pub proof fn law_alphabet_size()
    ensures
        ALPHABET@.len() == 31,
{
    reveal_strlit("23456789abcdefghjkmnpqrstuvwxyz");
}

/// The alphabet has no symbol twice, none that is visually ambiguous, and only
/// ASCII digits and lowercase letters.
pub proof fn law_alphabet_unambiguous()
    ensures
        ALPHABET@.no_duplicates(),
        forall|c: char| #[trigger]
            ALPHABET@.contains(c) ==> c != '0' && c != '1' && c != 'i' && c != 'l' && c != 'o' && (
            is_digit(c) || 'a' <= c <= 'z'),
{
    reveal_strlit("23456789abcdefghjkmnpqrstuvwxyz");
}

/// A text that can stand in a localpart: `a-z`, `0-9` and `_` only.
pub open spec fn localpart_safe(s: Seq<char>) -> bool {
    forall|i: int| 0 <= i < s.len() ==> is_digit(#[trigger] s[i]) || 'a' <= s[i] <= 'z' || s[i] == '_'
}

/// For every name, the sender of a hook lies in the appservice namespace
/// `@hook_.*` and is a valid localpart if its id can stand in one; it has at most 30
/// characters beyond the id. A generated id can.
pub proof fn law_localpart_in_namespace(name: Seq<char>, id: Seq<char>)
    ensures
        "hook_"@.is_prefix_of(localpart_of(name, id)),
        localpart_safe(id) ==> localpart_safe(localpart_of(name, id)),
        spelled_in(ALPHABET@, id) ==> localpart_safe(id),
        localpart_of(name, id).len() <= 30 + id.len(),
{
    law_alphabet_unambiguous();
    reveal_strlit("hook_");
    reveal_strlit("_");
    lemma_slug_safe(name);
    let r = localpart_of(name, id);
    if spelled_in(ALPHABET@, id) {
        assert forall|i: int| 0 <= i < id.len() implies is_digit(#[trigger] id[i]) || 'a' <= id[i]
            <= 'z' by {
            assert(ALPHABET@.contains(id[i]));
        }
    }
    assert("hook_"@ =~= r.subrange(0, 5));
}

/// Two hooks with different ids of one length never share a sender.
pub proof fn law_localpart_separates_ids(n1: Seq<char>, id1: Seq<char>, n2: Seq<char>, id2: Seq<char>)
    requires
        id1.len() == id2.len(),
        id1 != id2,
    ensures
        localpart_of(n1, id1) != localpart_of(n2, id2),
{
    let a = localpart_of(n1, id1);
    let b = localpart_of(n2, id2);
    assert(a.skip(a.len() - id1.len()) =~= id1);
    assert(b.skip(b.len() - id2.len()) =~= id2);
}

proof fn lemma_slug_safe(name: Seq<char>)
    ensures
        localpart_safe(slug(name)),
        slug(name).len() <= SLUG_MAX,
{
    let lower = name.map_values(|c: char| ascii_lower(c));
    let keep = |c: char| is_alphanumeric(c);
    let all = lower.filter(keep);
    assert forall|i: int| 0 <= i < all.len() implies is_digit(#[trigger] all[i]) || 'a' <= all[i]
        <= 'z' by {
        lower.lemma_filter_pred(keep, i);
        assert(lower.contains(all[i])) by {
            assert(all.contains(all[i]));
            lower.lemma_filter_contains_rev(keep, all[i]);
        }
        let j = choose|j: int| 0 <= j < lower.len() && lower[j] == all[i];
        assert(all[i] == ascii_lower(name[j]));
    }
}

/// A spelled text has the symbol that each number selects, in its place.
pub proof fn law_spelling(alphabet: Seq<char>, picks: Seq<usize>, i: int)
    requires
        0 <= i < picks.len(),
    ensures
        spelled(alphabet, picks).len() == picks.len(),
        spelled(alphabet, picks)[i] == alphabet[picks[i] as int],
{
}

/// A name is made fit for a localpart character by character: an ASCII letter or digit
/// stays, in lower case, and anything else goes; the first twenty-four that stay are
/// kept, and their order is.
pub proof fn law_slugs(name: Seq<char>, c: char)
    ensures
        slug_chars(Seq::empty()) == Seq::<char>::empty(),
        'a' <= c <= 'z' || '0' <= c <= '9' ==> slug_chars(name.push(c)) == slug_chars(name).push(c),
        'A' <= c <= 'Z' ==> slug_chars(name.push(c)) == slug_chars(name).push((c as u32 + 32) as char),
        !('a' <= c <= 'z' || '0' <= c <= '9' || 'A' <= c <= 'Z') ==> slug_chars(name.push(c))
            == slug_chars(name),
        slug_chars(name).len() <= 24 ==> slug(name) == slug_chars(name),
        slug_chars(name).len() > 24 ==> slug(name) == slug_chars(name).take(24),
{
    let lower = name.map_values(|c: char| ascii_lower(c));
    let keep = |c: char| is_alphanumeric(c);
    let none = Seq::<char>::empty();
    assert(none.map_values(|c: char| ascii_lower(c)) =~= none);
    reveal(Seq::filter);
    assert(slug_chars(none) =~= none);
    assert(name.push(c).map_values(|c: char| ascii_lower(c)) =~= lower.push(ascii_lower(c)));
    lower.lemma_filter_push(ascii_lower(c), keep);
}

/// The sender of a hook is `hook_`, what the name leaves and an underscore, if it leaves
/// anything, and the id, in this order.
pub proof fn law_localpart_parts(name: Seq<char>, id: Seq<char>)
    ensures
        ({
            let r = localpart_of(name, id);
            let n = slug(name).len() as int;
            &&& r.take(5) == "hook_"@
            &&& n == 0 ==> r.skip(5) == id
            &&& n > 0 ==> r.subrange(5, 5 + n) == slug(name) && r[5 + n] == '_' && r.skip(6 + n) == id
            &&& r.len() == 5 + id.len() + (if n > 0 {
                n + 1
            } else {
                0
            })
        }),
{
    reveal_strlit("hook_");
    reveal_strlit("_");
    let r = localpart_of(name, id);
    let n = slug(name).len() as int;
    assert(r.take(5) =~= "hook_"@);
    if n == 0 {
        assert(r.skip(5) =~= id);
    } else {
        assert(r.subrange(5, 5 + n) =~= slug(name));
        assert(r.skip(6 + n) =~= id);
    }
}

} // verus!

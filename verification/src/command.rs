//! The chat command grammar and webhook URLs.

use vstd::prelude::*;
use vstd::utf8::*;
use crate::text::{
    after, ascii_lower, ascii_lowercase, ascii_lowered, cut, is_white, lemma_ascii_lowercase,
    lemma_span, lemma_span_is, lemma_tail_span, lemma_tail_span_is, lemma_trim_ends,
    lemma_trim_of_trimmed, lemma_trim_parts, law_trim_undoes_padding, lowercase, same, span, strip_end, strip_start, tail_span, to_lowercase,
    trim, trim_end, trim_start, trimmed, Class,
};

verus! {

/// A parsed command from a direct message to the bot. `S` is `String` in running
/// code and `Seq<char>` in its model.
#[derive(Clone, Debug, PartialEq, Eq)]
pub enum Command<S = String> {
    /// Create a new hook with the given name.
    New(S),
    /// List the sender's hooks.
    List,
    /// Delete the hook with the given id.
    Delete(S),
    /// Show usage help (also the response to blank input).
    Help,
    /// Anything unrecognized, with the text of the message.
    Unknown(S),
}

impl View for Command {
    type V = Command<Seq<char>>;

    open spec fn view(&self) -> Command<Seq<char>> {
        match self {
            Command::New(s) => Command::New(s@),
            Command::List => Command::List,
            Command::Delete(s) => Command::Delete(s@),
            Command::Help => Command::Help,
            Command::Unknown(s) => Command::Unknown(s@),
        }
    }
}

/// The first word of a message: what precedes the first white space.
pub open spec fn verb_of(body: Seq<char>) -> Seq<char> {
    trim(body).take(span(trim(body), Class::NotWhite) as int)
}

/// What follows the first word of a message.
pub open spec fn rest_of(body: Seq<char>) -> Seq<char> {
    trim(after(trim(body), Class::NotWhite))
}

/// The first word of a text: what stands between its leading white space and the
/// next.
pub open spec fn first_word(s: Seq<char>) -> Seq<char> {
    let t = trim_start(s, Class::White);
    t.take(span(t, Class::NotWhite) as int)
}

/// The verbs that ask for help; no verb at all is one.
pub open spec fn is_help(verb: Seq<char>) -> bool {
    verb == ""@ || verb == "help"@ || verb == "?"@ || verb == "commands"@
}

/// The verbs that create a hook.
pub open spec fn is_new(verb: Seq<char>) -> bool {
    verb == "new"@ || verb == "create"@ || verb == "add"@
}

/// The verbs that list hooks.
pub open spec fn is_list(verb: Seq<char>) -> bool {
    verb == "list"@ || verb == "ls"@ || verb == "hooks"@
}

/// The verbs that delete a hook.
pub open spec fn is_delete(verb: Seq<char>) -> bool {
    verb == "delete"@ || verb == "del"@ || verb == "rm"@ || verb == "remove"@
}

/// The command that a message means whose first word, in lower case, is `verb`,
/// where `rest` follows that word and `whole` is the message without white space
/// at its ends.
pub open spec fn meaning(verb: Seq<char>, rest: Seq<char>, whole: Seq<char>) -> Command<
    Seq<char>,
> {
    if is_help(verb) {
        Command::Help
    } else if is_new(verb) {
        if rest.len() == 0 {
            Command::Unknown(whole)
        } else {
            Command::New(rest)
        }
    } else if is_list(verb) {
        Command::List
    } else if is_delete(verb) {
        if first_word(rest).len() == 0 {
            Command::Unknown(whole)
        } else {
            Command::Delete(first_word(rest))
        }
    } else {
        Command::Unknown(whole)
    }
}

/// The lowercase form of a verb: its ASCII letters in lower case, and then the rest
/// of it under the Unicode mappings.
pub open spec fn lower_verb(verb: Seq<char>) -> Seq<char> {
    lowercase(ascii_lowercase(verb))
}

/// The command that a message means.
pub open spec fn command_of(body: Seq<char>) -> Command<Seq<char>> {
    meaning(lower_verb(verb_of(body)), rest_of(body), trim(body))
}

/// Decides on the command from the parts of a message: its first word in lower
/// case, what follows it, and the whole.
pub fn command_from(verb: &str, rest: &str, whole: &str) -> (r: Command)
    ensures
        r@ == meaning(verb@, rest@, whole@),
{
    if same(verb, "") || same(verb, "help") || same(verb, "?") || same(verb, "commands") {
        Command::Help
    } else if same(verb, "new") || same(verb, "create") || same(verb, "add") {
        if rest.is_empty() {
            Command::Unknown(whole.to_owned())
        } else {
            Command::New(rest.to_owned())
        }
    } else if same(verb, "list") || same(verb, "ls") || same(verb, "hooks") {
        Command::List
    } else if same(verb, "delete") || same(verb, "del") || same(verb, "rm") || same(verb, "remove") {
        let (id, _) = cut(strip_start(rest, Class::White), Class::NotWhite);
        if id.is_empty() {
            Command::Unknown(whole.to_owned())
        } else {
            Command::Delete(id.to_owned())
        }
    } else {
        Command::Unknown(whole.to_owned())
    }
}

/// Parses a message body into a [`Command`].
///
/// The grammar, with a case-insensitive verb:
/// - `new|create|add <name>` gives [`Command::New`];
/// - `list|ls|hooks` gives [`Command::List`];
/// - `delete|del|rm|remove <id>` gives [`Command::Delete`];
/// - `help|?|commands` or nothing gives [`Command::Help`];
/// - anything else gives [`Command::Unknown`].
pub fn parse_command(body: &str) -> (r: Command)
    ensures
        r@ == command_of(body@),
        is_ascii_chars(verb_of(body@)) ==> r@ == meaning(
            ascii_lowercase(verb_of(body@)),
            rest_of(body@),
            trim(body@),
        ),
{
    let whole = trimmed(body);
    let (word, tail) = cut(whole, Class::NotWhite);
    let verb = to_lowercase(ascii_lowered(word).as_str());
    proof {
        lemma_ascii_lowercase(word@);
    }
    let rest = trimmed(tail);
    command_from(verb.as_str(), rest, whole)
}

/// The webhook URL of a hook: the base without trailing slashes, a slash, the id.
pub open spec fn url_of(base: Seq<char>, id: Seq<char>) -> Seq<char> {
    trim_end(base, Class::Only('/')) + "/"@ + id
}

/// Builds the public webhook URL for `uuid` under `base`.
pub fn webhook_url(base: &str, uuid: &str) -> (r: String)
    ensures
        r@ == url_of(base@, uuid@),
{
    strip_end(base, Class::Only('/')).to_owned().concat("/").concat(uuid)
}

/// The address of a hook's usage instructions: the base without trailing slashes,
/// `/onboard/`, the id.
pub open spec fn onboard_url_of(base: Seq<char>, id: Seq<char>) -> Seq<char> {
    trim_end(base, Class::Only('/')) + "/onboard/"@ + id
}

/// Builds the address of a hook's usage instructions.
pub fn onboard_url(base: &str, uuid: &str) -> (r: String)
    ensures
        r@ == onboard_url_of(base@, uuid@),
{
    strip_end(base, Class::Only('/')).to_owned().concat("/onboard/").concat(uuid)
}

/// Whether two commands are the same, but for the text that an unrecognized one
/// carries.
pub open spec fn same_request(a: Command<Seq<char>>, b: Command<Seq<char>>) -> bool {
    a == b || (a is Unknown && b is Unknown)
}

/// Where the first word of a message starts.
pub open spec fn verb_start(body: Seq<char>) -> nat {
    span(body, Class::White)
}

/// Where the first word of a message ends.
pub open spec fn verb_end(body: Seq<char>) -> nat {
    verb_start(body) + span(body.skip(verb_start(body) as int), Class::NotWhite)
}

/// Whether `b` is `a` with ASCII letters of its first word in another case.
pub open spec fn recased(a: Seq<char>, b: Seq<char>) -> bool {
    &&& a.len() == b.len()
    &&& forall|i: int| 0 <= i < a.len() ==> ascii_lower(#[trigger] a[i]) == ascii_lower(b[i])
    &&& forall|i: int| verb_end(a) <= i < a.len() ==> #[trigger] a[i] == b[i]
}

/// The verb is case-insensitive: a message asks for the same thing whatever the
/// case of the ASCII letters of its first word.
pub proof fn law_verb_case_insensitive(a: Seq<char>, b: Seq<char>)
    requires
        recased(a, b),
    ensures
        same_request(command_of(a), command_of(b)),
        !(command_of(a) is Unknown) ==> command_of(b) == command_of(a),
{
    let n = span(a, Class::White) as int;
    assert forall|i: int| 0 <= i < a.len() implies is_white(#[trigger] a[i]) == is_white(b[i]) by {
        lemma_case_is_not_white(a[i], b[i]);
    }
    lemma_span(a, Class::White);
    assert forall|i: int| 0 <= i < n implies Class::White.has(#[trigger] b[i]) by {
        assert(Class::White.has(a[i]));
    }
    if n < a.len() {
        assert(is_white(a[n]) == is_white(b[n]));
    }
    lemma_span_is(b, Class::White, n as nat);
    let s = a.skip(n);
    let t = b.skip(n);
    let m = tail_span(s, Class::White) as int;
    lemma_tail_span(s, Class::White);
    assert forall|i: int| s.len() - m <= i < s.len() implies Class::White.has(#[trigger] t[i]) by {
        assert(Class::White.has(s[i]));
        assert(is_white(a[n + i]) == is_white(b[n + i]));
    }
    if m < s.len() {
        let k = s.len() - m - 1;
        assert(!is_white(s[k]));
        assert(is_white(a[n + k]) == is_white(b[n + k]));
    }
    lemma_tail_span_is(t, Class::White, m as nat);
    let x = trim(a);
    let y = trim(b);
    assert forall|i: int| 0 <= i < x.len() implies #[trigger] x[i] == a[n + i] && y[i] == b[n + i] by {}
    // The first word.
    let k = span(x, Class::NotWhite) as int;
    lemma_span(x, Class::NotWhite);
    assert forall|i: int| 0 <= i < k implies Class::NotWhite.has(#[trigger] y[i]) by {
        assert(Class::NotWhite.has(x[i]));
        assert(is_white(a[n + i]) == is_white(b[n + i]));
    }
    if k < x.len() {
        assert(is_white(a[n + k]) == is_white(b[n + k]));
    }
    lemma_span_is(y, Class::NotWhite, k as nat);
    assert forall|i: int| 0 <= i < k implies Class::NotWhite.has(#[trigger] s[i]) by {
        assert(x[i] == s[i]);
        assert(Class::NotWhite.has(x[i]));
    }
    if k < s.len() {
        if k < x.len() {
            assert(s[k] == x[k]);
        } else {
            assert(Class::White.has(s[k]));
        }
    }
    lemma_span_is(s, Class::NotWhite, k as nat);
    assert(verb_end(a) == n + k);
    assert(ascii_lowercase(verb_of(a)) =~= ascii_lowercase(verb_of(b)));
    assert(after(x, Class::NotWhite) =~= after(y, Class::NotWhite));
}

/// A change of ASCII case makes no white space.
proof fn lemma_case_is_not_white(a: char, b: char)
    requires
        ascii_lower(a) == ascii_lower(b),
    ensures
        is_white(a) == is_white(b),
{
    if a != b {
        assert('A' <= a <= 'Z' || 'A' <= b <= 'Z');
    }
}

/// White space around a message does not change its command.
pub proof fn law_outer_white_space_ignored(before: Seq<char>, body: Seq<char>, behind: Seq<char>)
    requires
        forall|i: int| 0 <= i < before.len() ==> is_white(#[trigger] before[i]),
        forall|i: int| 0 <= i < behind.len() ==> is_white(#[trigger] behind[i]),
    ensures
        command_of(before + body + behind) == command_of(body),
{
    let all = before + body + behind;
    let k = Class::White;
    let n = span(body, k) as int;
    lemma_span(body, k);
    if n == body.len() {
        // Nothing but white space.
        assert forall|i: int| 0 <= i < all.len() implies k.has(#[trigger] all[i]) by {
            if before.len() <= i < before.len() + body.len() {
                assert(k.has(body[i - before.len()]));
            }
        }
        lemma_span_is(all, k, all.len());
        lemma_trim_of_trimmed(Seq::empty());
        assert(trim_start(all, k) =~= Seq::empty());
        assert(trim_start(body, k) =~= Seq::empty());
    } else {
        let s = body.skip(n);
        let a = before.len() + n;
        assert forall|i: int| 0 <= i < a implies k.has(#[trigger] all[i]) by {
            if before.len() <= i {
                assert(k.has(body[i - before.len()]));
            }
        }
        assert(all[a] == body[n]);
        lemma_span_is(all, k, a as nat);
        assert(trim_start(all, k) =~= s + behind);
        let m = tail_span(s, k) as int;
        lemma_tail_span(s, k);
        assert(!k.has(s[0]));
        if m == s.len() {
            assert(k.has(s[0]));
        }
        let t = s + behind;
        let e = m + behind.len();
        assert forall|i: int| t.len() - e <= i < t.len() implies k.has(#[trigger] t[i]) by {
            if i < s.len() {
                assert(k.has(s[i]));
            }
        }
        assert(t[t.len() - e - 1] == s[s.len() - m - 1]);
        lemma_tail_span_is(t, k, e as nat);
        assert(trim(all) =~= trim(body));
    }
}

/// A new hook's name is not empty and has no white space at its ends; the id of a
/// hook to delete is a single word.
pub proof fn law_arguments_are_clean(body: Seq<char>)
    ensures
        command_of(body) matches Command::New(name) ==> name.len() > 0 && trim(name) == name,
        command_of(body) matches Command::Delete(id) ==> id.len() > 0 && forall|i: int|
            0 <= i < id.len() ==> !is_white(#[trigger] id[i]),
{
    let rest = rest_of(body);
    lemma_trim_ends(after(trim(body), Class::NotWhite));
    lemma_trim_of_trimmed(rest);
    let t = trim_start(rest, Class::White);
    lemma_span(t, Class::NotWhite);
    assert forall|i: int| 0 <= i < first_word(rest).len() implies !is_white(
        #[trigger] first_word(rest)[i],
    ) by {
        assert(Class::NotWhite.has(t[i]));
    }
}

/// Slashes at the end of the base, however many, change neither a hook's URL nor the
/// address of its usage instructions.
pub proof fn law_url_ignores_trailing_slashes(base: Seq<char>, slashes: Seq<char>, id: Seq<char>)
    requires
        forall|i: int| 0 <= i < slashes.len() ==> #[trigger] slashes[i] == '/',
    ensures
        url_of(base + slashes, id) == url_of(base, id),
        onboard_url_of(base + slashes, id) == onboard_url_of(base, id),
{
    let k = Class::Only('/');
    let all = base + slashes;
    let n = tail_span(base, k);
    let m = n + slashes.len();
    lemma_tail_span(base, k);
    assert forall|i: int| all.len() - m <= i < all.len() implies k.has(#[trigger] all[i]) by {
        if i < base.len() {
            assert(k.has(base[i]));
        }
    }
    if m < all.len() {
        assert(all[all.len() - m - 1] == base[base.len() - n - 1]);
    }
    lemma_tail_span_is(all, k, m);
    assert(trim_end(all, k) =~= trim_end(base, k));
}

/// Different hooks have different URLs.
pub proof fn law_urls_separate_hooks(base: Seq<char>, a: Seq<char>, b: Seq<char>)
    ensures
        url_of(base, a) == url_of(base, b) ==> a == b,
{
    let head = trim_end(base, Class::Only('/')) + "/"@;
    assert(url_of(base, a).skip(head.len() as int) =~= a);
    assert(url_of(base, b).skip(head.len() as int) =~= b);
}

/// A message is taken apart at the first white space behind its first word: the word is
/// the verb, and what follows, without white space at its ends, is the rest.
pub proof fn law_messages_are_taken_apart(word: Seq<char>, gap: char, tail: Seq<char>)
    requires
        word.len() > 0,
        forall|i: int| 0 <= i < word.len() ==> !is_white(#[trigger] word[i]),
        is_white(gap),
    ensures
        verb_of(word) == word && rest_of(word).len() == 0,
        verb_of(word + seq![gap] + tail) == word,
        rest_of(word + seq![gap] + tail) == trim(tail),
{
    let k = Class::NotWhite;
    lemma_trim_of_trimmed(word);
    lemma_trim_of_trimmed(Seq::empty());
    assert forall|i: int| 0 <= i < word.len() implies k.has(#[trigger] word[i]) by {}
    lemma_span_is(word, k, word.len());
    assert(word.take(word.len() as int) =~= word);
    let (before, behind) = lemma_trim_parts(tail);
    lemma_trim_ends(tail);
    if trim(tail).len() == 0 {
        lemma_word_alone(word, gap, tail, before, behind);
    } else {
        lemma_word_and_rest(word, gap, tail, before, behind);
    }
}

/// A word with nothing but white space behind it.
proof fn lemma_word_alone(
    word: Seq<char>,
    gap: char,
    tail: Seq<char>,
    before: Seq<char>,
    behind: Seq<char>,
)
    requires
        word.len() > 0 && !is_white(word[0]) && !is_white(word.last()),
        is_white(gap),
        forall|i: int| 0 <= i < before.len() ==> is_white(#[trigger] before[i]),
        forall|i: int| 0 <= i < behind.len() ==> is_white(#[trigger] behind[i]),
        tail == before + behind,
    ensures
        trim(word + seq![gap] + tail) == word,
{
    let pad = seq![gap] + tail;
    assert forall|i: int| 0 <= i < pad.len() implies is_white(#[trigger] pad[i]) by {
        if 0 < i <= before.len() {
            assert(pad[i] == before[i - 1]);
        } else if i > 0 {
            assert(pad[i] == behind[i - 1 - before.len()]);
        }
    }
    law_trim_undoes_padding(Seq::empty(), word, pad);
    assert(Seq::empty() + word + pad =~= word + seq![gap] + tail);
}

/// A word with something behind it.
proof fn lemma_word_and_rest(
    word: Seq<char>,
    gap: char,
    tail: Seq<char>,
    before: Seq<char>,
    behind: Seq<char>,
)
    requires
        word.len() > 0,
        forall|i: int| 0 <= i < word.len() ==> !is_white(#[trigger] word[i]),
        is_white(gap),
        forall|i: int| 0 <= i < before.len() ==> is_white(#[trigger] before[i]),
        forall|i: int| 0 <= i < behind.len() ==> is_white(#[trigger] behind[i]),
        tail == before + trim(tail) + behind,
        trim(tail).len() > 0,
        !is_white(trim(tail)[0]) && !is_white(trim(tail).last()),
    ensures
        verb_of(word + seq![gap] + tail) == word,
        rest_of(word + seq![gap] + tail) == trim(tail),
{
    let k = Class::NotWhite;
    let core = trim(tail);
    let inner = word + seq![gap] + before + core;
    assert(inner.last() == core.last());
    assert(inner[0] == word[0]);
    law_trim_undoes_padding(Seq::empty(), inner, behind);
    assert(Seq::empty() + inner + behind =~= word + seq![gap] + tail);
    assert forall|i: int| 0 <= i < word.len() implies k.has(#[trigger] inner[i]) by {
        assert(inner[i] == word[i]);
    }
    assert(inner[word.len() as int] == gap);
    lemma_span_is(inner, k, word.len());
    assert(inner.take(word.len() as int) =~= word);
    assert(after(inner, k) =~= before + core);
    law_trim_undoes_padding(before, core, Seq::empty());
    assert(before + core + Seq::empty() =~= before + core);
}

/// The first word of a text is what stands between white space, or the end, on either
/// side; there is none in white space alone.
pub proof fn law_first_words(before: Seq<char>, word: Seq<char>, gap: char, tail: Seq<char>)
    requires
        forall|i: int| 0 <= i < before.len() ==> is_white(#[trigger] before[i]),
        forall|i: int| 0 <= i < word.len() ==> !is_white(#[trigger] word[i]),
        is_white(gap),
    ensures
        first_word(before + word) == word,
        word.len() > 0 ==> first_word(before + word + seq![gap] + tail) == word,
{
    let w = Class::White;
    let k = Class::NotWhite;
    assert forall|i: int| 0 <= i < word.len() implies k.has(#[trigger] word[i]) by {}
    let a = before + word;
    assert forall|i: int| 0 <= i < before.len() implies w.has(#[trigger] a[i]) by {}
    if word.len() > 0 {
        assert(a[before.len() as int] == word[0]);
    }
    lemma_span_is(a, w, before.len());
    assert(trim_start(a, w) =~= word);
    lemma_span_is(word, k, word.len());
    assert(word.take(word.len() as int) =~= word);
    if word.len() > 0 {
        let b = before + word + seq![gap] + tail;
        assert forall|i: int| 0 <= i < before.len() implies w.has(#[trigger] b[i]) by {}
        assert(b[before.len() as int] == word[0]);
        lemma_span_is(b, w, before.len());
        let t = word + seq![gap] + tail;
        assert(trim_start(b, w) =~= t);
        assert forall|i: int| 0 <= i < word.len() implies k.has(#[trigger] t[i]) by {
            assert(t[i] == word[i]);
        }
        assert(t[word.len() as int] == gap);
        lemma_span_is(t, k, word.len());
        assert(t.take(word.len() as int) =~= word);
    }
}

/// The grammar: each verb has its meaning whatever else the message holds. A verb that
/// creates needs a name, which is the whole rest, and one that deletes needs an id, which
/// is the first word of the rest; without, and with any other verb, the message is not
/// understood, and is kept as a whole.
pub proof fn law_grammar(verb: Seq<char>, rest: Seq<char>, whole: Seq<char>)
    ensures
        ({
            let m = meaning(verb, rest, whole);
            let help = seq![""@, "help"@, "?"@, "commands"@].contains(verb);
            let new = seq!["new"@, "create"@, "add"@].contains(verb);
            let list = seq!["list"@, "ls"@, "hooks"@].contains(verb);
            let delete = seq!["delete"@, "del"@, "rm"@, "remove"@].contains(verb);
            let id = first_word(rest);
            &&& m is Help <==> help
            &&& m is List <==> list
            &&& m is New <==> new && rest.len() > 0
            &&& m is Delete <==> delete && id.len() > 0
            &&& m matches Command::New(name) ==> name == rest
            &&& m matches Command::Delete(given) ==> given == id
            &&& m matches Command::Unknown(text) ==> text == whole
        }),
{
    let help = seq![""@, "help"@, "?"@, "commands"@];
    let new = seq!["new"@, "create"@, "add"@];
    let list = seq!["list"@, "ls"@, "hooks"@];
    let delete = seq!["delete"@, "del"@, "rm"@, "remove"@];
    lemma_verbs_differ();
    assert(help[0] == ""@ && help[1] == "help"@ && help[2] == "?"@ && help[3] == "commands"@);
    assert(new[0] == "new"@ && new[1] == "create"@ && new[2] == "add"@);
    assert(list[0] == "list"@ && list[1] == "ls"@ && list[2] == "hooks"@);
    assert(delete[0] == "delete"@ && delete[1] == "del"@ && delete[2] == "rm"@ && delete[3]
        == "remove"@);
    assert(help.contains(verb) == is_help(verb));
    assert(new.contains(verb) == is_new(verb));
    assert(list.contains(verb) == is_list(verb));
    assert(delete.contains(verb) == is_delete(verb));
}

/// No verb has two meanings.
proof fn lemma_verbs_differ()
    ensures
        forall|v: Seq<char>| #[trigger] is_help(v) ==> !is_new(v) && !is_list(v) && !is_delete(v),
        forall|v: Seq<char>| #[trigger] is_new(v) ==> !is_list(v) && !is_delete(v),
        forall|v: Seq<char>| #[trigger] is_list(v) ==> !is_delete(v),
{
    reveal_strlit("");
    reveal_strlit("help");
    reveal_strlit("?");
    reveal_strlit("commands");
    reveal_strlit("new");
    reveal_strlit("create");
    reveal_strlit("add");
    reveal_strlit("list");
    reveal_strlit("ls");
    reveal_strlit("hooks");
    reveal_strlit("delete");
    reveal_strlit("del");
    reveal_strlit("rm");
    reveal_strlit("remove");
    assert(""@.len() == 0 && "help"@[0] == 'h' && "?"@[0] == '?' && "commands"@.len() == 8);
    assert("help"@.len() == 4 && "hooks"@.len() == 5 && "hooks"@[0] == 'h');
    assert("new"@[0] == 'n' && "create"@[0] == 'c' && "create"@.len() == 6 && "add"@[0] == 'a');
    assert("list"@[0] == 'l' && "ls"@[0] == 'l' && "delete"@[0] == 'd' && "del"@[0] == 'd');
    assert("rm"@[0] == 'r' && "remove"@[0] == 'r' && "commands"@[0] == 'c');
}

/// The addresses of a hook are the base, where it does not end with a slash, and a slash
/// and the id behind it; the instructions have `onboard` in between.
pub proof fn law_urls_are_built(base: Seq<char>, id: Seq<char>)
    requires
        base.len() > 0 ==> base.last() != '/',
    ensures
        url_of(base, id) == base + seq!['/'] + id,
        onboard_url_of(base, id) == base + "/onboard"@ + seq!['/'] + id,
{
    reveal_strlit("/");
    reveal_strlit("/onboard");
    reveal_strlit("/onboard/");
    lemma_tail_span_is(base, Class::Only('/'), 0);
    assert(trim_end(base, Class::Only('/')) =~= base);
    assert("/"@ =~= seq!['/']);
    assert("/onboard/"@ =~= "/onboard"@ + seq!['/']);
    assert(onboard_url_of(base, id) =~= base + "/onboard"@ + seq!['/'] + id);
}

/// A message means what its first word, in lower case, means with the rest behind it,
/// whatever that is and however long.
pub proof fn law_commands_follow_the_grammar(word: Seq<char>, gap: char, tail: Seq<char>)
    requires
        word.len() > 0,
        forall|i: int| 0 <= i < word.len() ==> !is_white(#[trigger] word[i]),
        is_white(gap),
    ensures
        ({
            let body = word + seq![gap] + tail;
            let verb = lowercase(ascii_lowercase(word));
            &&& command_of(body) == meaning(verb, trim(tail), trim(body))
            &&& command_of(word) == meaning(verb, Seq::empty(), word)
        }),
{
    law_messages_are_taken_apart(word, gap, tail);
    lemma_trim_of_trimmed(word);
    assert(rest_of(word) =~= Seq::empty());
}

} // verus!

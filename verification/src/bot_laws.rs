//! What holds of every run of a command, whatever the homeserver and the store
//! answer.

use vstd::prelude::*;
use vstd::utf8::*;
use crate::bot::{
    created_text, deleted_text, first_step, heard, humans, is_direct, is_human, list_line, list_text, new_hook,
    next_step, not_yours, rolled_back_text, Action, Chat, Event, Phase, Step, CREATE_FAILED,
    DELETE_FAILED, HELP, LIST_FAILED, MAX_HOOKS_PER_USER, NAME_MAX, NAME_TOO_LONG, NOT_ENCRYPTED,
    NO_HOOKS, TOO_MANY_HOOKS,
};
use crate::command::{command_of, onboard_url_of, url_of, Command};
use crate::id::localpart_of;
use crate::matrix_id::localpart_in;
use crate::store::Hook;
use crate::text::{filled, find, lemma_filled_holds, lemma_find, lemma_found, trim};

verus! {

/// One carrying out of a command: the command and where it came from, the ids
/// for a new hook, and the events in the order in which they came back.
pub struct Run {
    pub cmd: Command<Seq<char>>,
    pub chat: Chat<Seq<char>>,
    pub base: Seq<char>,
    pub hid: Seq<char>,
    pub public_id: Seq<char>,
    pub events: Seq<Event<Seq<char>, Seq<Hook<Seq<char>>>>>,
}

impl Run {
    /// The step that the run has reached after `n` events; nothing if the run was
    /// over before, or an event did not answer what was asked for.
    pub open spec fn step(self, n: nat) -> Option<Step<Seq<char>>>
        decreases n,
    {
        if n == 0 {
            Some(first_step(self.cmd, self.chat))
        } else if n > self.events.len() {
            None
        } else {
            match self.step((n - 1) as nat) {
                Some(Step::Go(phase, _)) => next_step(
                    phase,
                    self.events[n - 1],
                    self.chat,
                    self.base,
                    self.hid,
                    self.public_id,
                ),
                _ => None,
            }
        }
    }

    /// Whether the run asks for `action` after `n` events.
    pub open spec fn asks(self, n: nat, action: Action<Seq<char>>) -> bool {
        self.step(n) matches Some(Step::Go(_, a)) && a == action
    }

    /// The hook that the run creates, if it creates one.
    pub open spec fn hook(self) -> Hook<Seq<char>> {
        new_hook(trim(self.cmd->New_0), self.chat, self.hid, self.public_id)
    }
}

/// Whether an event is an answer to an action.
pub open spec fn answers(
    event: Event<Seq<char>, Seq<Hook<Seq<char>>>>,
    action: Action<Seq<char>>,
) -> bool {
    match action {
        Action::ListHooks { .. } => event is Listed,
        Action::FindHook { .. } => event is Found,
        _ => event is Done,
    }
}

/// What a run can be at after `n` events, phase by phase.
pub open spec fn consistent(run: Run, n: nat) -> bool {
    match run.step(n) {
        Some(Step::Go(phase, action)) => match phase {
            Phase::Counting { name } => {
                &&& n == 0
                &&& run.cmd is New && name == trim(run.cmd->New_0)
                &&& encode_utf8(name).len() <= NAME_MAX && run.chat.encrypted
                &&& action == (Action::ListHooks { owner: run.chat.sender })
            },
            Phase::Registering { hook } => {
                &&& n == 1 && consistent_new(run, hook)
                &&& action == (Action::Register { localpart: hook.sender })
            },
            Phase::Creating { hook } => {
                &&& n == 2 && consistent_new(run, hook)
                &&& run.events[1] == Event::<Seq<char>, Seq<Hook<Seq<char>>>>::Done(true)
                &&& action == (Action::CreateHook { hook })
            },
            Phase::Provisioning { hook } => {
                &&& n == 3 && consistent_new(run, hook)
                &&& run.asks(2, Action::CreateHook { hook })
                &&& run.events[1] == Event::<Seq<char>, Seq<Hook<Seq<char>>>>::Done(true)
                &&& run.events[2] == Event::<Seq<char>, Seq<Hook<Seq<char>>>>::Done(true)
                &&& action == (Action::Provision { hook })
            },
            Phase::RollingBack { name } => {
                &&& n == 4 && consistent_new(run, run.hook()) && name == run.hook().name
                &&& run.asks(2, Action::CreateHook { hook: run.hook() })
                &&& run.events[3] == Event::<Seq<char>, Seq<Hook<Seq<char>>>>::Done(false)
                &&& action == (Action::DeleteHook { id: run.hid, owner: run.chat.sender })
            },
            Phase::Listing => {
                &&& n == 0 && run.cmd is List
                &&& action == (Action::ListHooks { owner: run.chat.sender })
            },
            Phase::Finding { id } => {
                &&& n == 0 && run.cmd == Command::Delete(id)
                &&& action == (Action::FindHook { id })
            },
            Phase::TearingDown { id } => {
                &&& n == 1 && run.cmd == Command::Delete(id)
                &&& action is TearDown && action->TearDown_hook.owner == run.chat.sender
                &&& run.events[0] == Event::<Seq<char>, Seq<Hook<Seq<char>>>>::Found(
                    Some(Some(action->TearDown_hook)),
                )
            },
            Phase::Deleting { id } => {
                &&& n == 2 && run.cmd == Command::Delete(id)
                &&& run.step(1) matches Some(Step::Go(_, before)) && before is TearDown
                    && before->TearDown_hook.owner == run.chat.sender
                &&& action == (Action::DeleteHook { id, owner: run.chat.sender })
            },
        },
        _ => true,
    }
}

/// What holds once a new hook has been decided on.
pub open spec fn consistent_new(run: Run, hook: Hook<Seq<char>>) -> bool {
    &&& run.cmd is New && hook == run.hook()
    &&& encode_utf8(hook.name).len() <= NAME_MAX && run.chat.encrypted
    &&& run.events[0] matches Event::Listed(Some(owned)) && owned.len() < MAX_HOOKS_PER_USER
}

proof fn lemma_consistent(run: Run, n: nat)
    ensures
        consistent(run, n),
    decreases n,
{
    if n > 0 {
        lemma_consistent(run, (n - 1) as nat);
    }
}

/// A hook is stored only in an encrypted room, under a name of at most
/// [`NAME_MAX`] bytes, for a sender who was found to own fewer than
/// [`MAX_HOOKS_PER_USER`] hooks, after its virtual user has been registered; it
/// belongs to the sender and to the room of the command.
pub proof fn law_creation_is_guarded(run: Run, n: nat, hook: Hook<Seq<char>>)
    requires
        run.asks(n, Action::CreateHook { hook }),
    ensures
        n == 2,
        run.chat.encrypted,
        run.cmd is New && hook == run.hook(),
        hook.owner == run.chat.sender && hook.room_id == run.chat.room_id,
        encode_utf8(hook.name).len() <= NAME_MAX,
        run.events[0] matches Event::Listed(Some(owned)) && owned.len() < MAX_HOOKS_PER_USER,
        run.asks(1, Action::Register { localpart: hook.sender }),
        run.events[1] == Event::<Seq<char>, Seq<Hook<Seq<char>>>>::Done(true),
{
    lemma_consistent(run, n);
    lemma_consistent(run, 1);
    reveal_with_fuel(Run::step, 3);
}

/// A user can delete their own hooks only: a client is torn down only for a hook
/// that was found to belong to the sender, and a hook is deleted only for the
/// sender, after that, or if it is the one that this very run created.
pub proof fn law_only_own_hooks_are_removed(run: Run, n: nat, id: Seq<char>, owner: Seq<char>)
    ensures
        forall|hook: Hook<Seq<char>>| #[trigger]
            run.asks(n, Action::TearDown { hook }) ==> hook.owner == run.chat.sender && n == 1
                && run.events[0] == Event::<Seq<char>, Seq<Hook<Seq<char>>>>::Found(
                Some(Some(hook)),
            ),
        run.asks(n, Action::DeleteHook { id, owner }) ==> {
            &&& owner == run.chat.sender
            &&& {
                ||| run.cmd == Command::Delete(id) && n == 2 && exists|hook: Hook<Seq<char>>|
                    hook.owner == run.chat.sender && #[trigger] run.asks(
                        1,
                        Action::TearDown { hook },
                    )
                ||| id == run.hid && n == 4 && run.asks(2, Action::CreateHook { hook: run.hook() })
            }
        },
{
    lemma_consistent(run, n);
    if run.asks(n, Action::DeleteHook { id, owner }) && run.cmd == Command::Delete(id) {
        lemma_consistent(run, 1);
        if let Some(Step::Go(_, before)) = run.step(1) {
            assert(run.asks(1, Action::TearDown { hook: before->TearDown_hook }));
        }
    }
}

/// A new hook either ends up provisioned, and is announced, or is deleted again:
/// where storing it succeeded, the answer to its provisioning decides.
pub proof fn law_failed_hooks_are_rolled_back(run: Run)
    requires
        run.step(3) is Some,
        run.asks(2, Action::CreateHook { hook: run.hook() }),
        run.events[2] == Event::<Seq<char>, Seq<Hook<Seq<char>>>>::Done(true),
        run.events.len() >= 5,
        run.events[3] is Done,
        run.events[4] is Done,
    ensures
        run.asks(3, Action::Provision { hook: run.hook() }),
        run.events[3] == Event::<Seq<char>, Seq<Hook<Seq<char>>>>::Done(true) ==> run.step(4)
            == Some(Step::Reply(created_text(run.hook(), run.base))),
        run.events[3] == Event::<Seq<char>, Seq<Hook<Seq<char>>>>::Done(false) ==> {
            &&& run.asks(4, Action::DeleteHook { id: run.hid, owner: run.chat.sender })
            &&& run.step(5) == Some(Step::Reply(rolled_back_text(run.hook().name)))
        },
{
    lemma_consistent(run, 2);
    lemma_consistent(run, 3);
    lemma_consistent(run, 4);
    reveal_with_fuel(Run::step, 6);
}

/// Every run ends: while the events answer what was asked for, a run goes on, and
/// it has its reply after five events at the latest.
pub proof fn law_commands_end_in_a_reply(run: Run, n: nat)
    requires
        run.step(n) is Some,
    ensures
        n >= 5 ==> run.step(n)->0 is Reply,
        run.step(n) matches Some(Step::Go(_, action)) ==> n < run.events.len() ==> (run.step(n + 1)
            is Some <==> answers(run.events[n as int], action)),
        run.step(n)->0 is Reply ==> run.step(n + 1) is None,
{
    lemma_consistent(run, n);
    reveal_with_fuel(Run::step, 2);
}

/// Listing, help and unknown commands change nothing: at most, the sender's own
/// hooks are listed.
pub proof fn law_reading_commands_change_nothing(run: Run, n: nat, action: Action<Seq<char>>)
    requires
        run.cmd is List || run.cmd is Help || run.cmd is Unknown,
        run.asks(n, action),
    ensures
        action == (Action::ListHooks { owner: run.chat.sender }),
{
    lemma_consistent(run, n);
}

/// What the homeserver or the store answers.
pub type Answer = Event<Seq<char>, Seq<Hook<Seq<char>>>>;

/// How a `new` command starts: the length of the name and the encryption of the room
/// decide alone, and where they allow it the sender's hooks are counted.
pub proof fn law_new_hooks_start(run: Run, given: Seq<char>)
    requires
        run.cmd == Command::New(given),
    ensures
        encode_utf8(trim(given)).len() > 100 ==> run.step(0) == Some(Step::Reply(NAME_TOO_LONG@)),
        encode_utf8(trim(given)).len() <= 100 && !run.chat.encrypted ==> run.step(0) == Some(
            Step::Reply(NOT_ENCRYPTED@),
        ),
        encode_utf8(trim(given)).len() <= 100 && run.chat.encrypted ==> run.asks(
            0,
            Action::ListHooks { owner: run.chat.sender },
        ),
{
}

/// Creation is live as well as guarded. For a name and a room that allow a hook, a
/// sender with fewer than fifty hooks, whatever those hold, gets the virtual user
/// registered, the hook stored and its client provisioned, in this order, and then the
/// announcement; only the first failure on the way ends it. The reply that there are
/// too many comes if and only if there are fifty or more.
pub proof fn law_creation_is_live(run: Run, given: Seq<char>)
    requires
        run.cmd == Command::New(given),
        encode_utf8(trim(given)).len() <= 100,
        run.chat.encrypted,
        run.events.len() >= 5,
    ensures
        ({
            let hook = Hook {
                id: run.hid,
                public_id: run.public_id,
                name: trim(given),
                owner: run.chat.sender,
                room_id: run.chat.room_id,
                sender: localpart_of(trim(given), run.hid),
                device_id: Seq::empty(),
                access_token: Seq::empty(),
            };
            let owned = run.events[0];
            let allowed = owned matches Event::Listed(Some(hooks)) && hooks.len() < 50;
            let registered = allowed && run.events[1] == Answer::Done(true);
            let stored = registered && run.events[2] == Answer::Done(true);
            let failed = Some(Step::Reply(CREATE_FAILED@));
            &&& owned == Answer::Listed(None) ==> run.step(1) == failed
            &&& owned matches Event::Listed(Some(hooks)) ==> (run.step(1) == Some(
                Step::Reply(TOO_MANY_HOOKS@),
            ) <==> hooks.len() >= 50)
            &&& allowed ==> run.asks(1, Action::Register { localpart: hook.sender })
            &&& allowed && run.events[1] == Answer::Done(false) ==> run.step(2) == failed
            &&& registered ==> run.asks(2, Action::CreateHook { hook })
            &&& registered && run.events[2] == Answer::Done(false) ==> run.step(3) == failed
            &&& stored ==> run.asks(3, Action::Provision { hook })
            &&& stored && run.events[3] == Answer::Done(true) ==> run.step(4) == Some(
                Step::Reply(created_text(hook, run.base)),
            )
            &&& stored && run.events[3] == Answer::Done(false) ==> run.asks(
                4,
                Action::DeleteHook { id: run.hid, owner: run.chat.sender },
            )
            &&& stored && run.events[3] == Answer::Done(false) && run.events[4] is Done
                ==> run.step(5) == Some(Step::Reply(rolled_back_text(trim(given))))
        }),
{
    reveal_with_fuel(Run::step, 6);
}

/// Deletion is live as well as restricted. A hook that is found and belongs to the
/// sender, whatever its other fields hold, is torn down and then deleted; the reply
/// that there is no such hook comes if and only if none was found or it is someone
/// else's.
pub proof fn law_deletion_is_live(run: Run, id: Seq<char>)
    requires
        run.cmd == Command::Delete(id),
        run.events.len() >= 3,
    ensures
        run.asks(0, Action::FindHook { id }),
        run.events[0] == Answer::Found(None) ==> run.step(1) == Some(Step::Reply(DELETE_FAILED@)),
        run.events[0] matches Event::Found(Some(found)) ==> ({
            let mine = found matches Some(hook) && hook.owner == run.chat.sender;
            &&& run.step(1) == Some(Step::Reply(not_yours(id))) <==> !mine
            &&& mine ==> run.asks(1, Action::TearDown { hook: found->0 })
            &&& mine && run.events[1] is Done ==> run.asks(
                2,
                Action::DeleteHook { id, owner: run.chat.sender },
            )
            &&& mine && run.events[1] is Done && run.events[2] == Answer::Done(true) ==> run.step(3)
                == Some(Step::Reply(deleted_text(id)))
            &&& mine && run.events[1] is Done && run.events[2] == Answer::Done(false) ==> run.step(
                3,
            ) == Some(Step::Reply(DELETE_FAILED@))
        }),
{
    reveal_with_fuel(Run::step, 4);
}

/// A listing asks for the sender's hooks and shows all that it is given.
pub proof fn law_listing_is_live(run: Run)
    requires
        run.cmd is List,
        run.events.len() >= 1,
    ensures
        run.asks(0, Action::ListHooks { owner: run.chat.sender }),
        run.events[0] == Answer::Listed(None) ==> run.step(1) == Some(Step::Reply(LIST_FAILED@)),
        run.events[0] matches Event::Listed(Some(hooks)) ==> run.step(1) == Some(
            Step::Reply(list_text(hooks, run.base)),
        ),
{
    reveal_with_fuel(Run::step, 2);
}

/// Help is given at once; a command that is not understood gets the same help, after a
/// remark that does not depend on it.
pub proof fn law_help_is_given(run: Run, other: Run)
    requires
        run.cmd is Help || run.cmd is Unknown,
        other.cmd is Help || other.cmd is Unknown,
    ensures
        run.step(0) matches Some(Step::Reply(text)) && HELP@.is_suffix_of(text) && (run.cmd is Help
            ==> text == HELP@),
        run.cmd is Unknown && other.cmd is Unknown ==> run.step(0) == other.step(0),
{
    let text = run.step(0)->0->Reply_0;
    assert(HELP@ =~= text.skip(text.len() - HELP@.len()));
}

/// Adding a hook to a list that is not empty appends exactly the line of that hook to
/// the reply; a list of one hook is a heading that every list starts with, and its
/// line; and there is a reply of its own for no hooks.
pub proof fn law_list_grows_by_lines(
    hooks: Seq<Hook<Seq<char>>>,
    hook: Hook<Seq<char>>,
    base: Seq<char>,
)
    ensures
        hooks.len() > 0 ==> list_text(hooks.push(hook), base) == list_text(hooks, base) + list_line(
            hook,
            base,
        ),
        list_text(seq![hook], base) == "Your hooks:\n"@ + list_line(hook, base),
        list_text(Seq::empty(), base) == NO_HOOKS@,
{
    let heading = "Your hooks:\n"@;
    let lines = crate::bot::list_lines(hooks, base);
    let line = list_line(hook, base);
    assert(hooks.push(hook).drop_last() =~= hooks);
    assert(heading + (lines + line) =~= (heading + lines) + line);
    assert(seq![hook].drop_last() =~= Seq::empty());
    reveal_with_fuel(crate::bot::list_lines, 2);
    assert(crate::bot::list_lines(seq![hook], base) =~= line);
}

/// The reply to a listing shows every hook, however many there are: the line of each
/// stands in it, in order, right behind the reply for the hooks before it; and each
/// line holds the name, the id and the URL of its hook.
pub proof fn law_list_shows_every_hook(hooks: Seq<Hook<Seq<char>>>, base: Seq<char>, i: int)
    requires
        0 <= i < hooks.len(),
    ensures
        ({
            let text = list_text(hooks, base);
            let start: int = if i == 0 {
                "Your hooks:\n"@.len() as int
            } else {
                list_text(hooks.take(i), base).len() as int
            };
            let line = list_line(hooks[i], base);
            &&& start + line.len() <= text.len()
            &&& text.subrange(start, start + line.len()) == line
            &&& i + 1 == hooks.len() ==> start + line.len() == text.len()
            &&& find(text, hooks[i].name) is Some
            &&& find(text, hooks[i].id) is Some
            &&& find(text, url_of(base, hooks[i].id)) is Some
            &&& find(line, hooks[i].name) is Some
            &&& find(line, hooks[i].id) is Some
            &&& find(line, url_of(base, hooks[i].id)) is Some
        }),
    decreases hooks.len() - i,
{
    let text = list_text(hooks, base);
    let line = list_line(hooks[i], base);
    let head = hooks.take(i);
    let start: int = if i == 0 {
        "Your hooks:\n"@.len() as int
    } else {
        list_text(head, base).len() as int
    };
    let some = hooks.take(i + 1);
    assert(some =~= head.push(hooks[i]));
    if i == 0 {
        assert(some =~= seq![hooks[i]]);
    }
    law_list_grows_by_lines(head, hooks[i], base);
    let shown = list_text(some, base);
    assert(shown.subrange(start, start + line.len()) =~= line);
    lemma_list_prefix(hooks, base, i + 1);
    assert(text.subrange(0, shown.len() as int) =~= shown);
    assert(text.subrange(start, start + line.len()) =~= shown.subrange(start, start + line.len()));
    if i + 1 == hooks.len() {
        assert(some =~= hooks);
    }
    lemma_list_line(hooks[i], base);
    lemma_find_in_part(text, start, line, hooks[i].name);
    lemma_find_in_part(text, start, line, hooks[i].id);
    lemma_find_in_part(text, start, line, url_of(base, hooks[i].id));
}

proof fn lemma_find_in_part(text: Seq<char>, start: int, part: Seq<char>, pat: Seq<char>)
    requires
        0 <= start && start + part.len() <= text.len(),
        text.subrange(start, start + part.len()) == part,
        find(part, pat) is Some,
    ensures
        find(text, pat) is Some,
{
    lemma_find(part, pat);
    let n = find(part, pat)->0;
    assert(part.skip(n as int).subrange(0, pat.len() as int) =~= text.subrange(
        start + n,
        start + n + pat.len(),
    ));
    lemma_found(text, pat, (start + n) as nat);
}

proof fn lemma_list_prefix(hooks: Seq<Hook<Seq<char>>>, base: Seq<char>, n: int)
    requires
        0 < n <= hooks.len(),
    ensures
        list_text(hooks.take(n), base).is_prefix_of(list_text(hooks, base)),
    decreases hooks.len() - n,
{
    let shown = list_text(hooks.take(n), base);
    if n == hooks.len() {
        assert(hooks.take(n) =~= hooks);
        assert(shown.subrange(0, shown.len() as int) =~= shown);
    } else {
        lemma_list_prefix(hooks, base, n + 1);
        assert(hooks.take(n + 1) =~= hooks.take(n).push(hooks[n]));
        law_list_grows_by_lines(hooks.take(n), hooks[n], base);
        let more = list_text(hooks.take(n + 1), base);
        let text = list_text(hooks, base);
        assert(text.subrange(0, shown.len() as int) =~= more.subrange(0, shown.len() as int));
        assert(more.subrange(0, shown.len() as int) =~= shown);
    }
}

/// Whether these pieces are the wording of the lines of a list.
pub open spec fn line_wording(p: Seq<Seq<char>>) -> bool {
    forall|hook: Hook<Seq<char>>, base: Seq<char>|
        #[trigger] list_line(hook, base) == filled(
            p,
            seq![hook.name, hook.id, url_of(base, hook.id)],
        )
}

/// Whether these pieces are the wording of the announcement of a new hook.
pub open spec fn created_wording(p: Seq<Seq<char>>) -> bool {
    forall|hook: Hook<Seq<char>>, base: Seq<char>|
        #[trigger] created_text(hook, base) == filled(
            p,
            seq![
                hook.name,
                hook.id,
                hook.public_id,
                url_of(base, hook.id),
                hook.name,
                onboard_url_of(base, hook.id),
            ],
        )
}

/// Whether these are the wordings of the replies that name a hook.
pub open spec fn hook_wordings(
    missing: Seq<Seq<char>>,
    deleted: Seq<Seq<char>>,
    rolled_back: Seq<Seq<char>>,
) -> bool {
    forall|s: Seq<char>|
        #![trigger not_yours(s)]
        #![trigger deleted_text(s)]
        #![trigger rolled_back_text(s)]
        not_yours(s) == filled(missing, seq![s]) && deleted_text(s) == filled(deleted, seq![s])
            && rolled_back_text(s) == filled(rolled_back, seq![s])
}

/// The replies have one wording for all hooks: what changes from hook to hook is only
/// its name, ids and addresses, each in its place.
pub proof fn law_replies_have_one_wording()
    ensures
        exists|p: Seq<Seq<char>>| #[trigger] line_wording(p),
        exists|p: Seq<Seq<char>>| #[trigger] created_wording(p),
        exists|a: Seq<Seq<char>>, b: Seq<Seq<char>>, c: Seq<Seq<char>>| #[trigger]
            hook_wordings(a, b, c),
{
    let line = line_pieces();
    assert forall|hook: Hook<Seq<char>>, base: Seq<char>|
        #[trigger] list_line(hook, base) == filled(
            line,
            seq![hook.name, hook.id, url_of(base, hook.id)],
        ) by {
        lemma_line_filled(hook, base);
    }
    assert(line_wording(line));
    let created = created_pieces();
    assert forall|hook: Hook<Seq<char>>, base: Seq<char>|
        #[trigger] created_text(hook, base) == filled(created, created_gaps(hook, base)) by {
        lemma_created_filled(hook, base);
    }
    assert(created_wording(created));
    let a = seq!["No hook `"@, "` owned by you."@];
    let b = seq!["🗑️ Deleted hook `"@, "`."@];
    let c = seq![
        "Created hook **"@,
        "** but couldn't set up its encrypted sender, so I rolled it back. Please try again."@,
    ];
    assert forall|s: Seq<char>|
        not_yours(s) == filled(a, seq![s]) && deleted_text(s) == filled(b, seq![s])
            && rolled_back_text(s) == filled(c, seq![s]) by {
        assert(seq![s].drop_last() =~= Seq::empty());
        reveal_with_fuel(filled, 2);
    }
    assert(hook_wordings(a, b, c));
}

spec fn line_pieces() -> Seq<Seq<char>> {
    seq!["- **"@, "** — `"@, "`\n  "@, "\n"@]
}

proof fn lemma_line_filled(hook: Hook<Seq<char>>, base: Seq<char>)
    ensures
        list_line(hook, base) == filled(
            line_pieces(),
            seq![hook.name, hook.id, url_of(base, hook.id)],
        ),
{
    let g = seq![hook.name, hook.id, url_of(base, hook.id)];
    assert(g.drop_last() =~= seq![hook.name, hook.id]);
    assert(g.drop_last().drop_last() =~= seq![hook.name]);
    assert(g.drop_last().drop_last().drop_last() =~= Seq::empty());
    reveal_with_fuel(filled, 4);
}

proof fn lemma_list_line(hook: Hook<Seq<char>>, base: Seq<char>)
    ensures
        find(list_line(hook, base), hook.name) is Some,
        find(list_line(hook, base), hook.id) is Some,
        find(list_line(hook, base), url_of(base, hook.id)) is Some,
{
    let g = seq![hook.name, hook.id, url_of(base, hook.id)];
    lemma_line_filled(hook, base);
    lemma_filled_holds(line_pieces(), g, 0);
    lemma_filled_holds(line_pieces(), g, 1);
    lemma_filled_holds(line_pieces(), g, 2);
}

spec fn created_pieces() -> Seq<Seq<char>> {
    seq![
        "✅ Created hook **"@,
        "**.\n\n- id: `"@,
        "`\n- public id: `"@,
        "`\n- URL: `"@,
        "`\n\nTrigger it (posts appear in *this* room as **"@,
        "**, end-to-end encrypted) as described at "@,
        "\n\n⚠️ Anyone with this URL can post here — keep it secret."@,
    ]
}

spec fn created_gaps(hook: Hook<Seq<char>>, base: Seq<char>) -> Seq<Seq<char>> {
    seq![
        hook.name,
        hook.id,
        hook.public_id,
        url_of(base, hook.id),
        hook.name,
        onboard_url_of(base, hook.id),
    ]
}

proof fn lemma_created_filled(hook: Hook<Seq<char>>, base: Seq<char>)
    ensures
        created_text(hook, base) == filled(created_pieces(), created_gaps(hook, base)),
{
    let g = created_gaps(hook, base);
    assert(g.drop_last() =~= g.take(5));
    assert(g.take(5).drop_last() =~= g.take(4));
    assert(g.take(4).drop_last() =~= g.take(3));
    assert(g.take(3).drop_last() =~= g.take(2));
    assert(g.take(2).drop_last() =~= g.take(1));
    assert(g.take(1).drop_last() =~= Seq::empty());
    reveal_with_fuel(filled, 7);
}

/// The announcement of a new hook holds its name, both of its ids, its URL and the
/// address of its instructions.
pub proof fn law_announcement_is_complete(hook: Hook<Seq<char>>, base: Seq<char>)
    ensures
        ({
            let text = created_text(hook, base);
            &&& find(text, hook.name) is Some
            &&& find(text, hook.id) is Some
            &&& find(text, hook.public_id) is Some
            &&& find(text, url_of(base, hook.id)) is Some
            &&& find(text, onboard_url_of(base, hook.id)) is Some
        }),
{
    lemma_created_filled(hook, base);
    lemma_filled_holds(created_pieces(), created_gaps(hook, base), 0);
    lemma_filled_holds(created_pieces(), created_gaps(hook, base), 1);
    lemma_filled_holds(created_pieces(), created_gaps(hook, base), 2);
    lemma_filled_holds(created_pieces(), created_gaps(hook, base), 3);
    lemma_filled_holds(created_pieces(), created_gaps(hook, base), 5);
}

/// Whether the member at a place is someone else than the bot and its virtual users.
pub open spec fn stranger_at(members: Seq<String>, me: Option<Seq<char>>, i: int) -> bool {
    Some(members[i]@) != me && !("hook_"@.is_prefix_of(localpart_in(members[i]@)))
}

/// A room is a one-to-one conversation unless two of its members are neither the bot
/// nor a virtual user, however many of those there are.
pub proof fn law_direct_chats_have_no_third(members: Seq<String>, me: Option<Seq<char>>)
    ensures
        humans(members, me).len() <= 1 <==> forall|i: int, j: int|
            0 <= i < j < members.len() ==> !(#[trigger] stranger_at(members, me, i)
                && #[trigger] stranger_at(members, me, j)),
        humans(members, me).len() == 0 <==> forall|i: int|
            0 <= i < members.len() ==> !#[trigger] stranger_at(members, me, i),
    decreases members.len(),
{
    reveal(Seq::filter);
    if members.len() > 0 {
        let n = members.len() - 1;
        let rest = members.drop_last();
        law_direct_chats_have_no_third(rest, me);
        assert forall|i: int| 0 <= i < n implies stranger_at(rest, me, i) == #[trigger] stranger_at(
            members,
            me,
            i,
        ) by {}
        assert(is_human(members[n]@, me) == stranger_at(members, me, n));
        if humans(members, me).len() <= 1 {
            assert forall|i: int, j: int|
                0 <= i < j < members.len() && #[trigger] stranger_at(members, me, i)
                    && #[trigger] stranger_at(members, me, j) implies false by {
                assert(stranger_at(rest, me, i));
                if j < n {
                    assert(stranger_at(rest, me, j));
                }
            }
        } else if forall|i: int, j: int|
            0 <= i < j < members.len() ==> !(#[trigger] stranger_at(members, me, i)
                && #[trigger] stranger_at(members, me, j)) {
            assert forall|i: int, j: int|
                0 <= i < j < n && #[trigger] stranger_at(rest, me, i) && #[trigger] stranger_at(
                    rest,
                    me,
                    j,
                ) implies false by {
                assert(stranger_at(members, me, i) && stranger_at(members, me, j));
            }
            if stranger_at(members, me, n) {
                assert forall|i: int| 0 <= i < n implies !#[trigger] stranger_at(rest, me, i) by {
                    assert(!(stranger_at(members, me, i) && stranger_at(members, me, n)));
                }
            }
        }
        if humans(members, me).len() == 0 {
            assert forall|i: int| 0 <= i < members.len() implies !#[trigger] stranger_at(
                members,
                me,
                i,
            ) by {
                if i < n {
                    assert(!stranger_at(rest, me, i));
                }
            }
        } else if forall|i: int| 0 <= i < members.len() ==> !#[trigger] stranger_at(members, me, i) {
            assert forall|i: int| 0 <= i < n implies !#[trigger] stranger_at(rest, me, i) by {
                assert(!stranger_at(members, me, i));
            }
            assert(!stranger_at(members, me, n));
        }
    }
}

/// Every plain text from someone else in a one-to-one room is carried out as the command
/// that it means, whatever it says; nothing else is: no message of the bot's own, nothing
/// that is no plain text, and nothing in a room with a third, or whose members could not
/// be fetched.
pub proof fn law_messages_are_heard(
    sender: Seq<char>,
    me: Option<Seq<char>>,
    text: Option<Seq<char>>,
    members: Option<Seq<String>>,
)
    ensures
        ({
            let third = members matches Some(list) && exists|i: int, j: int|
                0 <= i < j < list.len() && #[trigger] stranger_at(list, me, i)
                    && #[trigger] stranger_at(list, me, j);
            &&& heard(sender, me, text, members) is Some <==> me != Some(sender) && text is Some
                && members is Some && !third
            &&& heard(sender, me, text, members) is Some ==> heard(sender, me, text, members) == Some(
                command_of(text->0),
            )
            &&& is_direct(members, me) <==> members is Some && !third
        }),
{
    if let Some(list) = members {
        law_direct_chats_have_no_third(list, me);
    }
}

} // verus!

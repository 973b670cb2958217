//! The bot: who it listens to, and how it carries out a command.
//!
//! Any user may create a hook; a user can only see and delete their own. Commands
//! are honoured in one-to-one rooms only. Carrying out a command alternates
//! decisions with work on the homeserver and the store: [`begin`] and
//! [`handle_command`] make the decisions, one [`Step`] at a time, and the caller
//! performs each [`Action`] and hands back the [`Event`] that it ended in.

use vstd::prelude::*;
use vstd::string::*;
use vstd::utf8::*;
use crate::command::{
    command_of, onboard_url, onboard_url_of, parse_command, url_of, webhook_url, Command,
};
use crate::config::Config;
use crate::id::{gen, hook_id, localpart_of, spelled_in, virtual_localpart, ALPHABET, HOOK_ID_LEN};
use crate::matrix_id::{hook_user, is_hook_user};
use crate::store::{hook_models, Hook, PUBLIC_ID_LEN};
use crate::text::{same, trim, trimmed};

verus! {

/// The longest hook name, in bytes.
pub const NAME_MAX: usize = 100;

/// The most hooks that one user may own.
pub const MAX_HOOKS_PER_USER: usize = 50;

/// The reply to a name that is too long.
pub const NAME_TOO_LONG: &'static str = "Name is too long (max 100 characters).";

/// The reply to a new hook in a room that is not encrypted.
pub const NOT_ENCRYPTED: &'static str =
    "This room isn't end-to-end encrypted, and matrixHook only delivers encrypted alerts. Enable encryption for this chat (Room settings → Security) and try again.";

/// The reply to a new hook of someone who has as many as they may.
pub const TOO_MANY_HOOKS: &'static str =
    "You already have 50 hooks (the maximum). Delete one with `delete <id>` first.";

/// The reply where creating a hook failed.
pub const CREATE_FAILED: &'static str = "Sorry, I couldn't create that hook (internal error).";

/// The reply where listing hooks failed.
pub const LIST_FAILED: &'static str = "Sorry, I couldn't list your hooks (internal error).";

/// The reply where deleting a hook failed.
pub const DELETE_FAILED: &'static str = "Sorry, I couldn't delete that hook (internal error).";

/// The reply to someone who has no hooks.
pub const NO_HOOKS: &'static str = "You have no hooks yet. Create one with `new <name>`.";

/// The usage help.
pub const HELP: &'static str = "**matrixHook** — turn messages into Matrix posts.

Commands:
- `new <name>` — create a hook and get its URL
- `list` — list your hooks
- `delete <id>` — delete a hook
- `help` — show this help

Once you have a hook URL, POST a body or GET `<url>/<message>` and it appears in the room where you created it, posted by a per-hook user named after the hook.";

/// The view of an optional text.
pub open spec fn text_view(text: Option<&str>) -> Option<Seq<char>> {
    match text {
        Some(t) => Some(t@),
        None => None,
    }
}

/// The text of a message that deserves a look.
pub open spec fn screened(
    sender: Seq<char>,
    me: Option<Seq<char>>,
    text: Option<Seq<char>>,
) -> Option<Seq<char>> {
    if me == Some(sender) {
        None
    } else {
        text
    }
}

/// Whether a room with these members, as far as they could be fetched, is a one-to-one
/// conversation.
pub open spec fn is_direct(members: Option<Seq<String>>, me: Option<Seq<char>>) -> bool {
    members matches Some(list) && humans(list, me).len() <= 1
}

/// The view of an optional list.
pub open spec fn list_view(members: Option<Vec<String>>) -> Option<Seq<String>> {
    match members {
        Some(list) => Some(list@),
        None => None,
    }
}

/// The command that a message is carried out as, if it is.
pub open spec fn heard(
    sender: Seq<char>,
    me: Option<Seq<char>>,
    text: Option<Seq<char>>,
    members: Option<Seq<String>>,
) -> Option<Command<Seq<char>>> {
    match screened(sender, me, text) {
        Some(body) => if is_direct(members, me) {
            Some(command_of(body))
        } else {
            None
        },
        None => None,
    }
}

/// The text of a message that deserves a look: a plain text from someone else.
pub fn screen<'a>(sender: &str, me: Option<&str>, text: Option<&'a str>) -> (r: Option<&'a str>)
    ensures
        r == (if me matches Some(m) && m@ == sender@ {
            None
        } else {
            text
        }),
        text_view(r) == screened(sender@, text_view(me), text_view(text)),
{
    if let Some(m) = me {
        if same(m, sender) {
            return None;
        }
    }
    text
}

/// Whether a member counts as a human: neither the bot nor a per-hook user.
pub open spec fn is_human(member: Seq<char>, me: Option<Seq<char>>) -> bool {
    me != Some(member) && !is_hook_user(member)
}

/// The members of a room that count as humans.
pub open spec fn humans(members: Seq<String>, me: Option<Seq<char>>) -> Seq<String> {
    members.filter(|m: String| is_human(m@, me))
}

/// Whether a room is a one-to-one conversation: at most one of its joined members
/// is neither the bot itself nor a per-hook virtual user. A room whose members
/// could not be fetched is not.
pub fn is_direct_chat(members: &Option<Vec<String>>, me: Option<&str>) -> (r: bool)
    ensures
        r == (match members {
            Some(list) => humans(
                list@,
                match me {
                    Some(m) => Some(m@),
                    None => None,
                },
            ).len() <= 1,
            None => false,
        }),
        r == is_direct(list_view(*members), text_view(me)),
{
    let ghost myself = match me {
        Some(m) => Some(m@),
        None => None,
    };
    let ghost keep = |m: String| is_human(m@, myself);
    match members {
        None => false,
        Some(list) => {
            let mut count: usize = 0;
            let mut i: usize = 0;
            assert(list@.take(0).filter(keep) =~= Seq::<String>::empty()) by {
                reveal(Seq::filter);
            }
            while i < list.len()
                invariant
                    i <= list@.len(),
                    count <= i,
                    keep == (|m: String| is_human(m@, myself)),
                    myself == (match me {
                        Some(m) => Some(m@),
                        None => None,
                    }),
                    count == list@.take(i as int).filter(keep).len(),
                decreases list@.len() - i,
            {
                let member = list[i].as_str();
                let is_me = match me {
                    Some(m) => same(m, member),
                    None => false,
                };
                assert(list@.take(i + 1) =~= list@.take(i as int).push(list@[i as int]));
                proof {
                    list@.take(i as int).lemma_filter_push(list@[i as int], keep);
                }
                if !is_me && !hook_user(member) {
                    count += 1;
                }
                i += 1;
            }
            assert(list@.take(i as int) =~= list@);
            count <= 1
        },
    }
}

/// Decides on a message: the command to carry out, if the message is a plain text
/// from someone else in a one-to-one room.
pub fn on_message(
    sender: &str,
    me: Option<&str>,
    text: Option<&str>,
    members: &Option<Vec<String>>,
) -> (r: Option<Command>)
    ensures
        ({
            let myself = match me {
                Some(m) => Some(m@),
                None => None,
            };
            let wanted = myself != Some(sender@) && text is Some && members is Some && humans(
                members->0@,
                myself,
            ).len() <= 1;
            match r {
                Some(cmd) => wanted && cmd@ == command_of(text->0@),
                None => !wanted,
            }
        }),
        (match r {
            Some(cmd) => Some(cmd@),
            None => None,
        }) == heard(sender@, text_view(me), text_view(text), list_view(*members)),
{
    match screen(sender, me, text) {
        Some(body) => if is_direct_chat(members, me) {
            Some(parse_command(body))
        } else {
            None
        },
        None => None,
    }
}

/// Where a command came from: its sender, the room, and whether the room is
/// encrypted. `S` is `String` in running code and `Seq<char>` in its model.
#[derive(Debug)]
pub struct Chat<S = String> {
    pub sender: S,
    pub room_id: S,
    pub encrypted: bool,
}

impl View for Chat {
    type V = Chat<Seq<char>>;

    open spec fn view(&self) -> Chat<Seq<char>> {
        Chat { sender: self.sender@, room_id: self.room_id@, encrypted: self.encrypted }
    }
}

/// What has been asked for while a command is carried out.
#[derive(Debug)]
pub enum Phase<S = String> {
    /// The sender's hooks are listed, to see whether there may be one more.
    Counting { name: S },
    /// The virtual user of a new hook is registered.
    Registering { hook: Hook<S> },
    /// The new hook is stored.
    Creating { hook: Hook<S> },
    /// The new hook's client is provisioned.
    Provisioning { hook: Hook<S> },
    /// The new hook is deleted again.
    RollingBack { name: S },
    /// The sender's hooks are listed, to show them.
    Listing,
    /// A hook to delete is looked up.
    Finding { id: S },
    /// The client of a hook to delete is torn down.
    TearingDown { id: S },
    /// A hook is deleted.
    Deleting { id: S },
}

/// What the caller is to do.
#[derive(Debug)]
pub enum Action<S = String> {
    /// List the hooks of a user.
    ListHooks { owner: S },
    /// Look up a hook.
    FindHook { id: S },
    /// Register the virtual user with this localpart.
    Register { localpart: S },
    /// Store a hook.
    CreateHook { hook: Hook<S> },
    /// Provision a hook's client.
    Provision { hook: Hook<S> },
    /// Tear down a hook's client.
    TearDown { hook: Hook<S> },
    /// Delete a hook of a user.
    DeleteHook { id: S, owner: S },
}

/// What came of an action. `L` is a list of hooks.
#[derive(Debug)]
pub enum Event<S = String, L = Vec<Hook>> {
    /// The list, unless listing failed.
    Listed(Option<L>),
    /// The hook, if there is one, unless looking it up failed.
    Found(Option<Option<Hook<S>>>),
    /// Whether the action succeeded.
    Done(bool),
}

/// What happens next: an action, or the reply that ends the command.
#[derive(Debug)]
pub enum Step<S = String> {
    Go(Phase<S>, Action<S>),
    Reply(S),
}

impl View for Phase {
    type V = Phase<Seq<char>>;

    open spec fn view(&self) -> Phase<Seq<char>> {
        match self {
            Phase::Counting { name } => Phase::Counting { name: name@ },
            Phase::Registering { hook } => Phase::Registering { hook: hook@ },
            Phase::Creating { hook } => Phase::Creating { hook: hook@ },
            Phase::Provisioning { hook } => Phase::Provisioning { hook: hook@ },
            Phase::RollingBack { name } => Phase::RollingBack { name: name@ },
            Phase::Listing => Phase::Listing,
            Phase::Finding { id } => Phase::Finding { id: id@ },
            Phase::TearingDown { id } => Phase::TearingDown { id: id@ },
            Phase::Deleting { id } => Phase::Deleting { id: id@ },
        }
    }
}

impl View for Action {
    type V = Action<Seq<char>>;

    open spec fn view(&self) -> Action<Seq<char>> {
        match self {
            Action::ListHooks { owner } => Action::ListHooks { owner: owner@ },
            Action::FindHook { id } => Action::FindHook { id: id@ },
            Action::Register { localpart } => Action::Register { localpart: localpart@ },
            Action::CreateHook { hook } => Action::CreateHook { hook: hook@ },
            Action::Provision { hook } => Action::Provision { hook: hook@ },
            Action::TearDown { hook } => Action::TearDown { hook: hook@ },
            Action::DeleteHook { id, owner } => Action::DeleteHook { id: id@, owner: owner@ },
        }
    }
}

impl View for Event {
    type V = Event<Seq<char>, Seq<Hook<Seq<char>>>>;

    open spec fn view(&self) -> Event<Seq<char>, Seq<Hook<Seq<char>>>> {
        match self {
            Event::Listed(Some(hooks)) => Event::Listed(Some(hook_models(hooks@))),
            Event::Listed(None) => Event::Listed(None),
            Event::Found(Some(Some(hook))) => Event::Found(Some(Some(hook@))),
            Event::Found(Some(None)) => Event::Found(Some(None)),
            Event::Found(None) => Event::Found(None),
            Event::Done(ok) => Event::Done(*ok),
        }
    }
}

impl View for Step {
    type V = Step<Seq<char>>;

    open spec fn view(&self) -> Step<Seq<char>> {
        match self {
            Step::Go(phase, action) => Step::Go(phase@, action@),
            Step::Reply(text) => Step::Reply(text@),
        }
    }
}

/// The reply after a hook is created.
///
/// It shows the private id, the public id beside it, and the URL, and links to the
/// hook's usage instructions in place of spelling them out.
pub open spec fn created_text(hook: Hook<Seq<char>>, base: Seq<char>) -> Seq<char> {
    "✅ Created hook **"@ + hook.name + "**.\n\n- id: `"@ + hook.id + "`\n- public id: `"@
        + hook.public_id + "`\n- URL: `"@ + url_of(base, hook.id)
        + "`\n\nTrigger it (posts appear in *this* room as **"@ + hook.name
        + "**, end-to-end encrypted) as described at "@ + onboard_url_of(base, hook.id)
        + "\n\n⚠️ Anyone with this URL can post here — keep it secret."@
}

/// Writes the reply after a hook is created.
pub fn reply_created(hook: &Hook, cfg: &Config) -> (r: String)
    ensures
        r@ == created_text(hook@, cfg.public_base_url@),
{
    let url = webhook_url(cfg.public_base_url.as_str(), hook.id.as_str());
    let onboard = onboard_url(cfg.public_base_url.as_str(), hook.id.as_str());
    "✅ Created hook **"
        .to_owned()
        .concat(hook.name.as_str())
        .concat("**.\n\n- id: `")
        .concat(hook.id.as_str())
        .concat("`\n- public id: `")
        .concat(hook.public_id.as_str())
        .concat("`\n- URL: `")
        .concat(url.as_str())
        .concat("`\n\nTrigger it (posts appear in *this* room as **")
        .concat(hook.name.as_str())
        .concat("**, end-to-end encrypted) as described at ")
        .concat(onboard.as_str())
        .concat("\n\n⚠️ Anyone with this URL can post here — keep it secret.")
}

/// The usage help.
pub fn help_text() -> (r: String)
    ensures
        r@ == HELP@,
{
    HELP.to_owned()
}

/// One hook in a list: its name and id, and its URL on a line of its own.
pub open spec fn list_line(hook: Hook<Seq<char>>, base: Seq<char>) -> Seq<char> {
    "- **"@ + hook.name + "** — `"@ + hook.id + "`\n  "@ + url_of(base, hook.id) + "\n"@
}

/// The lines for hooks, in order.
pub open spec fn list_lines(hooks: Seq<Hook<Seq<char>>>, base: Seq<char>) -> Seq<char>
    decreases hooks.len(),
{
    if hooks.len() == 0 {
        Seq::empty()
    } else {
        list_lines(hooks.drop_last(), base) + list_line(hooks.last(), base)
    }
}

/// The reply that lists hooks.
pub open spec fn list_text(hooks: Seq<Hook<Seq<char>>>, base: Seq<char>) -> Seq<char> {
    if hooks.len() == 0 {
        NO_HOOKS@
    } else {
        "Your hooks:\n"@ + list_lines(hooks, base)
    }
}

/// Writes the reply that lists hooks.
pub fn reply_list(hooks: &Vec<Hook>, cfg: &Config) -> (r: String)
    ensures
        r@ == list_text(hook_models(hooks@), cfg.public_base_url@),
{
    if hooks.len() == 0 {
        return NO_HOOKS.to_owned();
    }
    let ghost models = hook_models(hooks@);
    let ghost base = cfg.public_base_url@;
    let mut out = "Your hooks:\n".to_owned();
    let mut i: usize = 0;
    assert(models.take(0) =~= Seq::empty());
    assert(out@ =~= "Your hooks:\n"@ + list_lines(models.take(0), base));
    while i < hooks.len()
        invariant
            i <= hooks@.len(),
            models == hook_models(hooks@),
            base == cfg.public_base_url@,
            out@ == "Your hooks:\n"@ + list_lines(models.take(i as int), base),
        decreases hooks@.len() - i,
    {
        let hook = &hooks[i];
        let url = webhook_url(cfg.public_base_url.as_str(), hook.id.as_str());
        let line = "- **"
            .to_owned()
            .concat(hook.name.as_str())
            .concat("** — `")
            .concat(hook.id.as_str())
            .concat("`\n  ")
            .concat(url.as_str())
            .concat("\n");
        let ghost before = out@;
        out = out.concat(line.as_str());
        assert(models.take(i + 1).drop_last() =~= models.take(i as int));
        assert(models.take(i + 1).last() == hook@);
        assert(out@ =~= "Your hooks:\n"@ + (list_lines(models.take(i as int), base) + list_line(
            hook@,
            base,
        )));
        i += 1;
    }
    assert(models.take(i as int) =~= models);
    out
}

/// The reply where a hook to delete is missing or someone else's.
pub open spec fn not_yours(id: Seq<char>) -> Seq<char> {
    "No hook `"@ + id + "` owned by you."@
}

/// The reply after a hook is deleted.
pub open spec fn deleted_text(id: Seq<char>) -> Seq<char> {
    "🗑️ Deleted hook `"@ + id + "`."@
}

/// The reply after a hook that could not be provisioned is deleted again.
pub open spec fn rolled_back_text(name: Seq<char>) -> Seq<char> {
    "Created hook **"@ + name
        + "** but couldn't set up its encrypted sender, so I rolled it back. Please try again."@
}

/// How a command starts. A name that is too long and a room that is not encrypted
/// refuse a new hook at once.
pub open spec fn first_step(cmd: Command<Seq<char>>, chat: Chat<Seq<char>>) -> Step<Seq<char>> {
    match cmd {
        Command::New(given) => {
            let name = trim(given);
            if encode_utf8(name).len() > NAME_MAX {
                Step::Reply(NAME_TOO_LONG@)
            } else if !chat.encrypted {
                Step::Reply(NOT_ENCRYPTED@)
            } else {
                Step::Go(Phase::Counting { name }, Action::ListHooks { owner: chat.sender })
            }
        },
        Command::List => Step::Go(Phase::Listing, Action::ListHooks { owner: chat.sender }),
        Command::Delete(id) => Step::Go(Phase::Finding { id }, Action::FindHook { id }),
        Command::Help => Step::Reply(HELP@),
        Command::Unknown(_) => Step::Reply("I didn't understand that.\n\n"@ + HELP@),
    }
}

/// A hook that does not exist yet, with its ids and without a session.
pub open spec fn new_hook(
    name: Seq<char>,
    chat: Chat<Seq<char>>,
    hid: Seq<char>,
    public_id: Seq<char>,
) -> Hook<Seq<char>> {
    Hook {
        id: hid,
        public_id,
        name,
        owner: chat.sender,
        room_id: chat.room_id,
        sender: localpart_of(name, hid),
        device_id: Seq::empty(),
        access_token: Seq::empty(),
    }
}

/// How a command goes on after an event, where `hid` and `public_id` are the ids
/// for a new hook; nothing if the event does not answer what was asked for.
pub open spec fn next_step(
    phase: Phase<Seq<char>>,
    event: Event<Seq<char>, Seq<Hook<Seq<char>>>>,
    chat: Chat<Seq<char>>,
    base: Seq<char>,
    hid: Seq<char>,
    public_id: Seq<char>,
) -> Option<Step<Seq<char>>> {
    match (phase, event) {
        (Phase::Counting { name }, Event::Listed(Some(hooks))) => Some(
            if hooks.len() >= MAX_HOOKS_PER_USER {
                Step::Reply(TOO_MANY_HOOKS@)
            } else {
                let hook = new_hook(name, chat, hid, public_id);
                Step::Go(Phase::Registering { hook }, Action::Register { localpart: hook.sender })
            },
        ),
        (Phase::Counting { .. }, Event::Listed(None)) => Some(Step::Reply(CREATE_FAILED@)),
        (Phase::Registering { hook }, Event::Done(ok)) => Some(
            if ok {
                Step::Go(Phase::Creating { hook }, Action::CreateHook { hook })
            } else {
                Step::Reply(CREATE_FAILED@)
            },
        ),
        (Phase::Creating { hook }, Event::Done(ok)) => Some(
            if ok {
                Step::Go(Phase::Provisioning { hook }, Action::Provision { hook })
            } else {
                Step::Reply(CREATE_FAILED@)
            },
        ),
        (Phase::Provisioning { hook }, Event::Done(ok)) => Some(
            if ok {
                Step::Reply(created_text(hook, base))
            } else {
                Step::Go(
                    Phase::RollingBack { name: hook.name },
                    Action::DeleteHook { id: hook.id, owner: chat.sender },
                )
            },
        ),
        (Phase::RollingBack { name }, Event::Done(_)) => Some(Step::Reply(rolled_back_text(name))),
        (Phase::Listing, Event::Listed(Some(hooks))) => Some(Step::Reply(list_text(hooks, base))),
        (Phase::Listing, Event::Listed(None)) => Some(Step::Reply(LIST_FAILED@)),
        (Phase::Finding { id }, Event::Found(Some(Some(hook)))) => Some(
            if hook.owner == chat.sender {
                Step::Go(Phase::TearingDown { id }, Action::TearDown { hook })
            } else {
                Step::Reply(not_yours(id))
            },
        ),
        (Phase::Finding { id }, Event::Found(Some(None))) => Some(Step::Reply(not_yours(id))),
        (Phase::Finding { .. }, Event::Found(None)) => Some(Step::Reply(DELETE_FAILED@)),
        (Phase::TearingDown { id }, Event::Done(_)) => Some(
            Step::Go(Phase::Deleting { id }, Action::DeleteHook { id, owner: chat.sender }),
        ),
        (Phase::Deleting { id }, Event::Done(ok)) => Some(
            if ok {
                Step::Reply(deleted_text(id))
            } else {
                Step::Reply(DELETE_FAILED@)
            },
        ),
        _ => None,
    }
}

/// Starts to carry out a command.
pub fn begin(cmd: Command, chat: &Chat) -> (r: Step)
    ensures
        r@ == first_step(cmd@, chat@),
{
    match cmd {
        Command::New(given) => {
            let name = trimmed(given.as_str());
            if name.as_bytes().len() > NAME_MAX {
                Step::Reply(NAME_TOO_LONG.to_owned())
            } else if !chat.encrypted {
                Step::Reply(NOT_ENCRYPTED.to_owned())
            } else {
                Step::Go(
                    Phase::Counting { name: name.to_owned() },
                    Action::ListHooks { owner: chat.sender.clone() },
                )
            }
        },
        Command::List => Step::Go(
            Phase::Listing,
            Action::ListHooks { owner: chat.sender.clone() },
        ),
        Command::Delete(id) => Step::Go(
            Phase::Finding { id: id.clone() },
            Action::FindHook { id },
        ),
        Command::Help => Step::Reply(help_text()),
        Command::Unknown(_) => Step::Reply(
            "I didn't understand that.\n\n".to_owned().concat(HELP),
        ),
    }
}

/// Goes on with a command after an event, with the given ids for a new hook.
pub fn handle_command_with(
    phase: Phase,
    event: Event,
    chat: &Chat,
    cfg: &Config,
    hid: &str,
    public_id: &str,
) -> (r: Option<Step>)
    ensures
        match r {
            Some(step) => next_step(phase@, event@, chat@, cfg.public_base_url@, hid@, public_id@)
                == Some(step@),
            None => next_step(
                phase@,
                event@,
                chat@,
                cfg.public_base_url@,
                hid@,
                public_id@,
            ) is None,
        },
{
    match (phase, event) {
        (Phase::Counting { name }, Event::Listed(Some(hooks))) => {
            assert(hook_models(hooks@).len() == hooks@.len());
            if hooks.len() >= MAX_HOOKS_PER_USER {
                return Some(Step::Reply(TOO_MANY_HOOKS.to_owned()));
            }
            let localpart = virtual_localpart(name.as_str(), hid);
            let hook = Hook {
                id: hid.to_owned(),
                public_id: public_id.to_owned(),
                name,
                owner: chat.sender.clone(),
                room_id: chat.room_id.clone(),
                sender: localpart.clone(),
                device_id: String::new(),
                access_token: String::new(),
            };
            Some(Step::Go(Phase::Registering { hook }, Action::Register { localpart }))
        },
        (Phase::Counting { .. }, Event::Listed(None)) => Some(
            Step::Reply(CREATE_FAILED.to_owned()),
        ),
        (Phase::Registering { hook }, Event::Done(ok)) => if ok {
            Some(Step::Go(Phase::Creating { hook: hook.clone() }, Action::CreateHook { hook }))
        } else {
            Some(Step::Reply(CREATE_FAILED.to_owned()))
        },
        (Phase::Creating { hook }, Event::Done(ok)) => if ok {
            Some(Step::Go(Phase::Provisioning { hook: hook.clone() }, Action::Provision { hook }))
        } else {
            Some(Step::Reply(CREATE_FAILED.to_owned()))
        },
        (Phase::Provisioning { hook }, Event::Done(ok)) => if ok {
            Some(Step::Reply(reply_created(&hook, cfg)))
        } else {
            Some(
                Step::Go(
                    Phase::RollingBack { name: hook.name },
                    Action::DeleteHook { id: hook.id, owner: chat.sender.clone() },
                ),
            )
        },
        (Phase::RollingBack { name }, Event::Done(_)) => Some(
            Step::Reply(
                "Created hook **".to_owned().concat(name.as_str()).concat(
                    "** but couldn't set up its encrypted sender, so I rolled it back. Please try again.",
                ),
            ),
        ),
        (Phase::Listing, Event::Listed(Some(hooks))) => Some(
            Step::Reply(reply_list(&hooks, cfg)),
        ),
        (Phase::Listing, Event::Listed(None)) => Some(Step::Reply(LIST_FAILED.to_owned())),
        (Phase::Finding { id }, Event::Found(Some(Some(hook)))) => if same(
            hook.owner.as_str(),
            chat.sender.as_str(),
        ) {
            Some(Step::Go(Phase::TearingDown { id }, Action::TearDown { hook }))
        } else {
            Some(Step::Reply(reply_not_yours(id.as_str())))
        },
        (Phase::Finding { id }, Event::Found(Some(None))) => Some(
            Step::Reply(reply_not_yours(id.as_str())),
        ),
        (Phase::Finding { .. }, Event::Found(None)) => Some(Step::Reply(DELETE_FAILED.to_owned())),
        (Phase::TearingDown { id }, Event::Done(_)) => Some(
            Step::Go(
                Phase::Deleting { id: id.clone() },
                Action::DeleteHook { id, owner: chat.sender.clone() },
            ),
        ),
        (Phase::Deleting { id }, Event::Done(ok)) => if ok {
            Some(
                Step::Reply(
                    "🗑️ Deleted hook `".to_owned().concat(id.as_str()).concat("`."),
                ),
            )
        } else {
            Some(Step::Reply(DELETE_FAILED.to_owned()))
        },
        _ => None,
    }
}

fn reply_not_yours(id: &str) -> (r: String)
    ensures
        r@ == not_yours(id@),
{
    "No hook `".to_owned().concat(id).concat("` owned by you.")
}

/// Goes on with a command after an event, with fresh ids for a new hook.
pub fn handle_command(phase: Phase, event: Event, chat: &Chat, cfg: &Config) -> (r: Option<Step>)
    ensures
        exists|hid: Seq<char>, public_id: Seq<char>|
            {
                &&& hid.len() == HOOK_ID_LEN && spelled_in(ALPHABET@, hid)
                &&& public_id.len() == PUBLIC_ID_LEN && spelled_in(ALPHABET@, public_id)
                &&& #[trigger] next_step(
                    phase@,
                    event@,
                    chat@,
                    cfg.public_base_url@,
                    hid,
                    public_id,
                ) == (match r {
                    Some(step) => Some(step@),
                    None => None,
                })
            },
{
    let hid = hook_id();
    let public_id = gen(PUBLIC_ID_LEN);
    handle_command_with(phase, event, chat, cfg, hid.as_str(), public_id.as_str())
}

} // verus!

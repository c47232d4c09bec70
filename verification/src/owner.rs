//! The owner commands: who counts as an administrator, when the bot shuts
//! down, and the steps of deleting messages.
use vstd::prelude::*;
use crate::text::{decimal, parse_u64, parse_u64_spec, push_decimal};

verus! {

/// The permission bit of a Discord administrator.
pub const ADMINISTRATOR: u64 = 8;

/// Whether a permission set holds the administrator bit.
pub open spec fn grants_admin(permissions: u64) -> bool {
    permissions & ADMINISTRATOR == ADMINISTRATOR
}

/// Whether one of the member's roles, as far as they are known, grants
/// administrator rights. Each entry is a role's permission bits, or `None`
/// for a role that is not known.
pub open spec fn is_admin(roles: Seq<Option<u64>>) -> bool {
    exists|i: int| 0 <= i < roles.len() && #[trigger] role_grants_admin(roles[i])
}

pub open spec fn role_grants_admin(role: Option<u64>) -> bool {
    match role {
        Some(p) => grants_admin(p),
        None => false,
    }
}

/// Whether the member with these roles is an administrator. A message
/// without a member has no roles.
pub fn admin(role_permissions: &Vec<Option<u64>>) -> (r: bool)
    ensures
        r == is_admin(role_permissions@),
{
    let mut i: usize = 0;
    while i < role_permissions.len()
        invariant
            i <= role_permissions.len(),
            forall|j: int| 0 <= j < i ==> !role_grants_admin(#[trigger] role_permissions@[j]),
        decreases role_permissions.len() - i,
    {
        if let Some(p) = role_permissions[i] {
            if p & ADMINISTRATOR == ADMINISTRATOR {
                assert(role_grants_admin(role_permissions@[i as int]));
                return true;
            }
        }
        i = i + 1;
    }
    false
}

/// What a shutdown request leads to.
pub enum ShutdownAction {
    /// Nothing at all.
    Ignore,
    /// A refusal: the author may not do this.
    Refuse,
    /// The confirmation, then the shards shut down.
    ShutDown,
    /// The bot cannot reach its shard manager.
    NoManager,
}

/// The shutdown command of the command group: bots are ignored, anyone else
/// shuts the bot down if the shard manager is there.
pub fn shutdown_action(author_is_bot: bool, has_manager: bool) -> (r: ShutdownAction)
    ensures
        r == (if author_is_bot {
            ShutdownAction::Ignore
        } else if has_manager {
            ShutdownAction::ShutDown
        } else {
            ShutdownAction::NoManager
        }),
{
    if author_is_bot {
        ShutdownAction::Ignore
    } else if has_manager {
        ShutdownAction::ShutDown
    } else {
        ShutdownAction::NoManager
    }
}

/// The administrators' shutdown command: anyone else is refused.
pub fn admin_shutdown_action(is_admin: bool, has_manager: bool) -> (r: ShutdownAction)
    ensures
        r == (if !is_admin {
            ShutdownAction::Refuse
        } else if has_manager {
            ShutdownAction::ShutDown
        } else {
            ShutdownAction::NoManager
        }),
{
    if !is_admin {
        ShutdownAction::Refuse
    } else if has_manager {
        ShutdownAction::ShutDown
    } else {
        ShutdownAction::NoManager
    }
}

pub open spec fn refusal_text() -> Seq<char> {
    "Ah... You don't get to tell me what to do."@
}

/// The reply to a shutdown request, if there is one.
pub fn shutdown_reply(a: &ShutdownAction) -> (r: Option<&'static str>)
    ensures
        match a {
            ShutdownAction::Ignore => r is None,
            ShutdownAction::Refuse => r matches Some(t) && t@ == refusal_text(),
            ShutdownAction::ShutDown => r matches Some(t) && t@ == "Shutting Down!"@,
            ShutdownAction::NoManager => r matches Some(t) && t@ == "No ShardManager found in context"@,
        },
{
    match a {
        ShutdownAction::Ignore => None,
        ShutdownAction::Refuse => Some("Ah... You don't get to tell me what to do."),
        ShutdownAction::ShutDown => Some("Shutting Down!"),
        ShutdownAction::NoManager => Some("No ShardManager found in context"),
    }
}

/// Where a message deletion stands.
pub enum DeleteState {
    /// The command has not been read yet.
    Start,
    /// This many messages were asked for, and they are being fetched.
    Fetching(u64),
    /// This many messages were asked for, and the fetched ones are being
    /// deleted.
    Deleting(u64),
    /// Nothing more happens.
    Done,
}

/// What happened outside since the last step.
pub enum DeleteEvent {
    /// The command came in: whether its author is an administrator, and the
    /// text after the command name.
    Invoked { is_admin: bool, rest: String },
    /// Fetching the channel's latest messages gave this many, or failed.
    Fetched(Option<u64>),
    /// Deleting the fetched messages succeeded, or not.
    Deleted(bool),
}

/// What the bot is to do next.
pub enum DeleteAction {
    /// Reply to the command's message with this text.
    Reply(String),
    /// Say this text in the channel.
    Say(String),
    /// Fetch at most this many of the channel's latest messages.
    Fetch(u64),
    /// Delete the messages just fetched.
    DeleteFetched,
}

pub ghost enum DeleteActionView {
    Reply(Seq<char>),
    Say(Seq<char>),
    Fetch(u64),
    DeleteFetched,
}

impl View for DeleteAction {
    type V = DeleteActionView;

    open spec fn view(&self) -> DeleteActionView {
        match self {
            DeleteAction::Reply(t) => DeleteActionView::Reply(t@),
            DeleteAction::Say(t) => DeleteActionView::Say(t@),
            DeleteAction::Fetch(n) => DeleteActionView::Fetch(*n),
            DeleteAction::DeleteFetched => DeleteActionView::DeleteFetched,
        }
    }
}

pub ghost enum DeleteEventView {
    Invoked { is_admin: bool, rest: Seq<char> },
    Fetched(Option<u64>),
    Deleted(bool),
}

impl View for DeleteEvent {
    type V = DeleteEventView;

    open spec fn view(&self) -> DeleteEventView {
        match self {
            DeleteEvent::Invoked { is_admin, rest } => DeleteEventView::Invoked {
                is_admin: *is_admin,
                rest: rest@,
            },
            DeleteEvent::Fetched(n) => DeleteEventView::Fetched(*n),
            DeleteEvent::Deleted(ok) => DeleteEventView::Deleted(*ok),
        }
    }
}

pub open spec fn deleted_text(n: u64) -> Seq<char> {
    "Deleted "@ + decimal(n as nat) + " messages."@
}

/// One step of the deletion: the next state and the actions, in order.
/// Events that do not fit the state change nothing.
pub open spec fn delete_next(state: DeleteState, event: DeleteEventView) -> (DeleteState, Seq<DeleteActionView>) {
    match (state, event) {
        (DeleteState::Start, DeleteEventView::Invoked { is_admin, rest }) => if !is_admin {
            (DeleteState::Done, seq![DeleteActionView::Reply(refusal_text())])
        } else {
            match parse_u64_spec(rest) {
                None => (
                    DeleteState::Done,
                    seq![DeleteActionView::Reply("Invalid number of messages to delete. Please enter a number."@)],
                ),
                Some(n) => (DeleteState::Fetching(n), seq![DeleteActionView::Fetch(n)]),
            }
        },
        (DeleteState::Fetching(n), DeleteEventView::Fetched(got)) => match got {
            Some(k) if k > 0 => (DeleteState::Deleting(n), seq![DeleteActionView::DeleteFetched]),
            _ => (DeleteState::Done, seq![DeleteActionView::Reply("Could not find messages."@)]),
        },
        (DeleteState::Deleting(n), DeleteEventView::Deleted(ok)) => if ok {
            (DeleteState::Done, seq![DeleteActionView::Say(deleted_text(n))])
        } else {
            (
                DeleteState::Done,
                seq![
                    DeleteActionView::Reply("Could not delete messages."@),
                    DeleteActionView::Say(deleted_text(n)),
                ],
            )
        },
        (s, _) => (s, Seq::empty()),
    }
}

pub open spec fn actions_view(v: Seq<DeleteAction>) -> Seq<DeleteActionView> {
    v.map_values(|a: DeleteAction| a@)
}

/// The text `Deleted <n> messages.`.
fn deleted_message(n: u64) -> (r: String)
    ensures
        r@ == deleted_text(n),
{
    let mut out = "Deleted ".to_string();
    push_decimal(&mut out, n);
    out.append(" messages.");
    out
}

/// One step of the message deletion.
pub fn delete_msgs(state: DeleteState, event: &DeleteEvent) -> (r: (DeleteState, Vec<DeleteAction>))
    ensures
        (r.0, actions_view(r.1@)) == delete_next(state, event@),
{
    let ghost pre = state;
    match (state, event) {
        (DeleteState::Start, DeleteEvent::Invoked { is_admin, rest }) => {
            if !*is_admin {
                let v = vec![DeleteAction::Reply("Ah... You don't get to tell me what to do.".to_string())];
                assert(actions_view(v@) =~= seq![DeleteActionView::Reply(refusal_text())]);
                (DeleteState::Done, v)
            } else {
                match parse_u64(rest.as_str()) {
                    None => {
                        let v = vec![
                            DeleteAction::Reply(
                                "Invalid number of messages to delete. Please enter a number.".to_string(),
                            ),
                        ];
                        assert(actions_view(v@) =~= seq![
                            DeleteActionView::Reply(
                                "Invalid number of messages to delete. Please enter a number."@,
                            ),
                        ]);
                        (DeleteState::Done, v)
                    },
                    Some(n) => {
                        let v = vec![DeleteAction::Fetch(n)];
                        assert(actions_view(v@) =~= seq![DeleteActionView::Fetch(n)]);
                        (DeleteState::Fetching(n), v)
                    },
                }
            }
        },
        (DeleteState::Fetching(n), DeleteEvent::Fetched(got)) => {
            let found = match got {
                Some(k) => *k > 0,
                None => false,
            };
            if found {
                let v = vec![DeleteAction::DeleteFetched];
                assert(actions_view(v@) =~= seq![DeleteActionView::DeleteFetched]);
                (DeleteState::Deleting(n), v)
            } else {
                let v = vec![DeleteAction::Reply("Could not find messages.".to_string())];
                assert(actions_view(v@) =~= seq![DeleteActionView::Reply("Could not find messages."@)]);
                (DeleteState::Done, v)
            }
        },
        (DeleteState::Deleting(n), DeleteEvent::Deleted(ok)) => {
            let mut v: Vec<DeleteAction> = Vec::new();
            if !*ok {
                v.push(DeleteAction::Reply("Could not delete messages.".to_string()));
            }
            v.push(DeleteAction::Say(deleted_message(n)));
            if *ok {
                assert(actions_view(v@) =~= seq![DeleteActionView::Say(deleted_text(n))]);
            } else {
                assert(actions_view(v@) =~= seq![
                    DeleteActionView::Reply("Could not delete messages."@),
                    DeleteActionView::Say(deleted_text(n)),
                ]);
            }
            (DeleteState::Done, v)
        },
        (s, _) => {
            let v: Vec<DeleteAction> = Vec::new();
            assert(actions_view(v@) =~= Seq::<DeleteActionView>::empty());
            (s, v)
        },
    }
}

/// Whether an action fetches or deletes messages.
pub open spec fn touches_messages(a: DeleteActionView) -> bool {
    a is Fetch || a is DeleteFetched
}

/// A member who is not an administrator gets the refusal and nothing else:
/// no message is fetched or deleted, and the deletion is over.
pub proof fn lemma_non_admin_never_deletes(rest: Seq<char>)
    ensures
        delete_next(DeleteState::Start, DeleteEventView::Invoked { is_admin: false, rest }) == (
            DeleteState::Done,
            seq![DeleteActionView::Reply(refusal_text())],
        ),
        forall|i: int|
            0 <= i < delete_next(DeleteState::Start, DeleteEventView::Invoked { is_admin: false, rest }).1.len()
                ==> !touches_messages(
                #[trigger] delete_next(DeleteState::Start, DeleteEventView::Invoked { is_admin: false, rest }).1[i],
            ),
{
}

/// Messages are deleted only in the state reached by fetching a non-empty
/// batch, and the final confirmation always names the count that was asked
/// for, whether or not the deletion succeeded.
pub proof fn lemma_delete_confirms_requested(n: u64, ok: bool)
    ensures
        delete_next(DeleteState::Fetching(n), DeleteEventView::Fetched(Some(0))).1
            == seq![DeleteActionView::Reply("Could not find messages."@)],
        delete_next(DeleteState::Deleting(n), DeleteEventView::Deleted(ok)).1.last()
            == DeleteActionView::Say(deleted_text(n)),
        delete_next(DeleteState::Deleting(n), DeleteEventView::Deleted(ok)).0 == DeleteState::Done,
{
}

/// Any non-empty batch of fetched messages is deleted, whatever its size
/// against the count asked for; only a failed or empty fetch ends with
/// `Could not find messages.`.
pub proof fn lemma_fetched_batch_is_deleted(n: u64, k: u64)
    ensures
        k > 0 ==> delete_next(DeleteState::Fetching(n), DeleteEventView::Fetched(Some(k))) == (
            DeleteState::Deleting(n),
            seq![DeleteActionView::DeleteFetched],
        ),
        delete_next(DeleteState::Fetching(n), DeleteEventView::Fetched(Some(0))) == (
            DeleteState::Done,
            seq![DeleteActionView::Reply("Could not find messages."@)],
        ),
        delete_next(DeleteState::Fetching(n), DeleteEventView::Fetched(None)) == (
            DeleteState::Done,
            seq![DeleteActionView::Reply("Could not find messages."@)],
        ),
{
}

/// A member with a role that holds the administrator bit, at any position
/// among the roles, is an administrator; adding roles, anywhere, never takes
/// that away; and a member none of whose known roles holds the bit is not.
pub proof fn lemma_admin_any_role(roles: Seq<Option<u64>>, i: int, j: int, extra: Option<u64>)
    ensures
        (0 <= i < roles.len() && (roles[i] matches Some(p) && p & ADMINISTRATOR == ADMINISTRATOR))
            ==> is_admin(roles),
        is_admin(roles) && 0 <= j <= roles.len() ==> is_admin(roles.insert(j, extra)),
        (forall|k: int| 0 <= k < roles.len() ==> match #[trigger] roles[k] {
            Some(p) => p & ADMINISTRATOR != ADMINISTRATOR,
            None => true,
        }) ==> !is_admin(roles),
{
    if 0 <= i < roles.len() {
        assert(roles[i] matches Some(p) && p & ADMINISTRATOR == ADMINISTRATOR ==> role_grants_admin(roles[i]));
    }
    if is_admin(roles) && 0 <= j <= roles.len() {
        let w = choose|w: int| 0 <= w < roles.len() && #[trigger] role_grants_admin(roles[w]);
        let ins = roles.insert(j, extra);
        if w < j {
            assert(ins[w] == roles[w]);
            assert(role_grants_admin(ins[w]));
        } else {
            assert(ins[w + 1] == roles[w]);
            assert(role_grants_admin(ins[w + 1]));
        }
    }
    if forall|k: int| 0 <= k < roles.len() ==> match #[trigger] roles[k] {
        Some(p) => p & ADMINISTRATOR != ADMINISTRATOR,
        None => true,
    } {
        assert forall|k: int| 0 <= k < roles.len() implies !role_grants_admin(#[trigger] roles[k]) by {
            match roles[k] {
                Some(p) => {},
                None => {},
            }
        }
    }
}

} // verus!

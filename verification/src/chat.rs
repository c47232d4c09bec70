//! The bot's conversational answers: greetings, unknown commands, and how
//! repeated text is made safe.
use vstd::prelude::*;

verus! {

/// The answer to `test` and to a mention of the bot: the author's mention and
/// a greeting.
pub fn hello_reply(mention: &str) -> (r: String)
    ensures
        r@ == mention@ + ", Hello!"@,
{
    let mut out = mention.to_string();
    out.append(", Hello!");
    out
}

/// The answer to the rude command.
pub fn rude_reply(mention: &str) -> (r: String)
    ensures
        r@ == "F*ck you, "@ + mention@,
{
    let mut out = "F*ck you, ".to_string();
    out.append(mention);
    out
}

/// The answer to a command the bot does not know.
pub fn unknown_command_reply(name: &str) -> (r: String)
    ensures
        r@ == "Unknown command: '"@ + name@ + "'. Try `/help`."@,
{
    let mut out = "Unknown command: '".to_string();
    out.append(name);
    out.append("'. Try `/help`.");
    out
}

/// How many times the bot greets when a message mentions these users: once
/// for each mention of the bot itself.
pub open spec fn self_mentions(mentions: Seq<u64>, self_id: u64) -> nat
    decreases mentions.len(),
{
    if mentions.len() == 0 {
        0
    } else {
        self_mentions(mentions.drop_last(), self_id) + if mentions.last() == self_id {
            1nat
        } else {
            0nat
        }
    }
}

/// The greetings the bot answers a message with: one per mention of itself.
pub fn mention_replies(mentions: &Vec<u64>, self_id: u64, author_mention: &str) -> (r: Vec<String>)
    ensures
        r.len() == self_mentions(mentions@, self_id),
        forall|i: int| 0 <= i < r.len() ==> (#[trigger] r[i])@ == author_mention@ + ", Hello!"@,
{
    let mut out: Vec<String> = Vec::new();
    let mut i: usize = 0;
    while i < mentions.len()
        invariant
            i <= mentions.len(),
            out.len() == self_mentions(mentions@.take(i as int), self_id),
            forall|j: int| 0 <= j < out.len() ==> (#[trigger] out[j])@ == author_mention@ + ", Hello!"@,
        decreases mentions.len() - i,
    {
        assert(mentions@.take(i + 1).drop_last() =~= mentions@.take(i as int));
        if mentions[i] == self_id {
            out.push(hello_reply(author_mention));
        }
        i = i + 1;
    }
    assert(mentions@.take(i as int) =~= mentions@);
    out
}

/// How the `say` command cleans the text it repeats: which kinds of
/// mention are neutralised, and whose member names stand in for user
/// mentions.
pub struct SafeContentSettings {
    pub clean_role: bool,
    pub clean_user: bool,
    pub clean_channel: bool,
    pub clean_here: bool,
    pub clean_everyone: bool,
    pub show_discriminator: bool,
    pub display_as_member_from: Option<u64>,
}

/// The settings for `say`: channel mentions are kept; in a guild, user
/// mentions show the member names of that guild, and elsewhere role mentions
/// are kept too. Everything else stays cleaned, with discriminators shown.
pub fn say_settings(guild_id: Option<u64>) -> (r: SafeContentSettings)
    ensures
        !r.clean_channel,
        r.clean_user,
        r.clean_here,
        r.clean_everyone,
        r.show_discriminator,
        r.display_as_member_from == guild_id,
        r.clean_role == (guild_id is Some),
{
    match guild_id {
        Some(g) => SafeContentSettings {
            clean_role: true,
            clean_user: true,
            clean_channel: false,
            clean_here: true,
            clean_everyone: true,
            show_discriminator: true,
            display_as_member_from: Some(g),
        },
        None => SafeContentSettings {
            clean_role: false,
            clean_user: true,
            clean_channel: false,
            clean_here: true,
            clean_everyone: true,
            show_discriminator: true,
            display_as_member_from: None,
        },
    }
}

/// The greetings of two runs of mentions together are those of each run:
/// a single mention gives one greeting exactly when it is the bot, so the
/// count is the number of positions that hold the bot's id, and putting
/// the bot's id in front of any list adds one.
pub proof fn lemma_self_mentions_count(s: Seq<u64>, t: Seq<u64>, x: u64, self_id: u64)
    ensures
        self_mentions(s + t, self_id) == self_mentions(s, self_id) + self_mentions(t, self_id),
        self_mentions(seq![x], self_id) == if x == self_id {
            1nat
        } else {
            0nat
        },
        self_mentions(seq![self_id] + s, self_id) == self_mentions(s, self_id) + 1,
        self_mentions(s, self_id) <= s.len(),
    decreases t.len(),
{
    assert(seq![x].drop_last() =~= Seq::<u64>::empty());
    assert(self_mentions(Seq::<u64>::empty(), self_id) == 0);
    assert(seq![x].last() == x);
    if t.len() > 0 {
        lemma_self_mentions_count(s, t.drop_last(), x, self_id);
        assert((s + t).drop_last() =~= s + t.drop_last());
    } else {
        assert(s + t =~= s);
    }
    lemma_self_mentions_bound(s, self_id);
    lemma_self_mentions_count_prefix(s, self_id);
}

proof fn lemma_self_mentions_bound(s: Seq<u64>, self_id: u64)
    ensures
        self_mentions(s, self_id) <= s.len(),
    decreases s.len(),
{
    if s.len() > 0 {
        lemma_self_mentions_bound(s.drop_last(), self_id);
    }
}

proof fn lemma_self_mentions_count_prefix(s: Seq<u64>, self_id: u64)
    ensures
        self_mentions(seq![self_id] + s, self_id) == self_mentions(s, self_id) + 1,
    decreases s.len(),
{
    if s.len() > 0 {
        lemma_self_mentions_count_prefix(s.drop_last(), self_id);
        assert((seq![self_id] + s).drop_last() =~= seq![self_id] + s.drop_last());
    } else {
        assert(seq![self_id] + s =~= seq![self_id]);
        assert(seq![self_id].drop_last() =~= Seq::<u64>::empty());
        assert(self_mentions(Seq::<u64>::empty(), self_id) == 0);
        assert(self_mentions(s, self_id) == 0);
        assert(seq![self_id].last() == self_id);
    }
}

} // verus!

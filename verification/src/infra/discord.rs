use vstd::prelude::*;

use std::collections::HashMap;

use crate::domain::money::{money_text, Money};
use crate::text::same_text;

verus! {

/// The reaction a human clicks to approve.
pub const APPROVE_EMOJI: &'static str = "\u{2705}";

/// The reaction a human clicks to reject.
pub const REJECT_EMOJI: &'static str = "\u{274e}";

pub open spec fn approve_text() -> Seq<char> {
    seq!['\u{2705}']
}

pub open spec fn reject_text() -> Seq<char> {
    seq!['\u{274e}']
}

/// The emoji of a reaction on a chat message.
#[derive(Debug, Clone, PartialEq)]
pub enum ReactionEmoji {
    /// A custom emoji of a server.
    Custom { animated: bool, id: u64, name: Option<String> },
    /// A standard Unicode emoji.
    Unicode { name: String },
}

/// A reaction on a chat message: which emoji, and how many users added it.
#[derive(Debug, Clone, PartialEq)]
pub struct Reaction {
    pub count: u64,
    pub emoji: ReactionEmoji,
}

/// The decision an emoji stands for: approve, reject, or none.
pub open spec fn emoji_decision(emoji: ReactionEmoji) -> Option<bool> {
    match emoji {
        ReactionEmoji::Unicode { name } => if name@ == approve_text() {
            Some(true)
        } else if name@ == reject_text() {
            Some(false)
        } else {
            None
        },
        ReactionEmoji::Custom { .. } => None,
    }
}

/// Someone besides the bot added a reaction standing for `approved`; the bot's own reaction
/// is always one of the count.
pub open spec fn human_decided(reactions: Seq<Reaction>, approved: bool) -> bool {
    exists|i: int|
        0 <= i < reactions.len() && reactions[i].count > 1 && #[trigger] emoji_decision(
            reactions[i].emoji,
        ) == Some(approved)
}

/// The decision the reactions on a prompt record: a rejection as soon as a human rejected
/// (a message carrying both reactions is not an approval), an approval when humans only
/// approved, and none while only the bot's own reactions are there.
pub open spec fn reactions_decision(reactions: Seq<Reaction>) -> Option<bool> {
    if human_decided(reactions, false) {
        Some(false)
    } else if human_decided(reactions, true) {
        Some(true)
    } else {
        None
    }
}

/// The decision `emoji` stands for.
pub fn decision_from_emoji(emoji: &ReactionEmoji) -> (r: Option<bool>)
    ensures
        r == emoji_decision(*emoji),
{
    proof {
        reveal_strlit("\u{2705}");
        reveal_strlit("\u{274e}");
        assert(APPROVE_EMOJI@ == approve_text());
        assert(REJECT_EMOJI@ == reject_text());
    }
    match emoji {
        ReactionEmoji::Unicode { name } => {
            if same_text(name.as_str(), APPROVE_EMOJI) {
                Some(true)
            } else if same_text(name.as_str(), REJECT_EMOJI) {
                Some(false)
            } else {
                None
            }
        },
        ReactionEmoji::Custom { .. } => None,
    }
}

/// The bot's own auto-added reaction is always one of the count, so only `count > 1` means a
/// human reacted too. A message carrying both reactions is not an approval.
pub fn decision_from_reactions(reactions: &[Reaction]) -> (r: Option<bool>)
    ensures
        r == reactions_decision(reactions@),
{
    let mut approved = false;
    let mut rejected = false;
    let mut i: usize = 0;
    while i < reactions.len()
        invariant
            i <= reactions@.len(),
            approved <==> exists|j: int|
                0 <= j < i && reactions@[j].count > 1 && #[trigger] emoji_decision(
                    reactions@[j].emoji,
                ) == Some(true),
            rejected <==> exists|j: int|
                0 <= j < i && reactions@[j].count > 1 && #[trigger] emoji_decision(
                    reactions@[j].emoji,
                ) == Some(false),
        decreases reactions@.len() - i,
    {
        let reaction = &reactions[i];
        if reaction.count > 1 {
            match decision_from_emoji(&reaction.emoji) {
                Some(true) => {
                    approved = true;
                },
                Some(false) => {
                    rejected = true;
                },
                None => {},
            }
        }
        i = i + 1;
    }
    if rejected {
        Some(false)
    } else if approved {
        Some(true)
    } else {
        None
    }
}

/// `emoji` is the standard Unicode emoji written `text`.
pub open spec fn shows_emoji(emoji: ReactionEmoji, text: Seq<char>) -> bool {
    emoji matches ReactionEmoji::Unicode { name } && name@ == text
}

/// A human rejection is decisive: once anyone besides the bot added the reject emoji, the
/// reactions record a rejection, whatever else was added and however many approved.
pub proof fn lemma_human_rejection_vetoes(reactions: Seq<Reaction>, i: int)
    requires
        0 <= i < reactions.len(),
        reactions[i].count > 1,
        shows_emoji(reactions[i].emoji, reject_text()),
    ensures
        reactions_decision(reactions) == Some(false),
{
    assert(emoji_decision(reactions[i].emoji) == Some(false)) by {
        assert(approve_text()[0] != reject_text()[0]);
    }
}

/// The reactions record an approval exactly when a human added the approve emoji and no human
/// added the reject emoji; they record nothing while no human added either.
pub proof fn lemma_reactions_decision_cases(reactions: Seq<Reaction>)
    ensures
        reactions_decision(reactions) == Some(true) <==> (exists|i: int|
            0 <= i < reactions.len() && reactions[i].count > 1 && #[trigger] shows_emoji(
                reactions[i].emoji,
                approve_text(),
            )) && !(exists|j: int|
            0 <= j < reactions.len() && reactions[j].count > 1 && #[trigger] shows_emoji(
                reactions[j].emoji,
                reject_text(),
            )),
        reactions_decision(reactions) is None <==> forall|i: int|
            0 <= i < reactions.len() && reactions[i].count > 1 ==> !#[trigger] shows_emoji(
                reactions[i].emoji,
                approve_text(),
            ) && !shows_emoji(reactions[i].emoji, reject_text()),
{
    assert(approve_text() != reject_text()) by {
        assert(approve_text()[0] != reject_text()[0]);
    }
    assert forall|i: int| 0 <= i < reactions.len() implies (#[trigger] emoji_decision(
        reactions[i].emoji,
    ) == Some(true) <==> shows_emoji(reactions[i].emoji, approve_text())) && (emoji_decision(
        reactions[i].emoji,
    ) == Some(false) <==> shows_emoji(reactions[i].emoji, reject_text())) by {}
    lemma_human_decided_shows(reactions, true, approve_text());
    lemma_human_decided_shows(reactions, false, reject_text());
    if reactions_decision(reactions) is None {
        assert forall|i: int|
            0 <= i < reactions.len() && reactions[i].count > 1 implies !#[trigger] shows_emoji(
            reactions[i].emoji,
            approve_text(),
        ) && !shows_emoji(reactions[i].emoji, reject_text()) by {
            if shows_emoji(reactions[i].emoji, approve_text()) {
                assert(emoji_decision(reactions[i].emoji) == Some(true));
            }
            if shows_emoji(reactions[i].emoji, reject_text()) {
                assert(emoji_decision(reactions[i].emoji) == Some(false));
            }
        }
    }
}

/// A human decided `approved` exactly when a human added the emoji written `text` that stands
/// for it.
proof fn lemma_human_decided_shows(reactions: Seq<Reaction>, approved: bool, text: Seq<char>)
    requires
        forall|i: int|
            0 <= i < reactions.len() ==> (#[trigger] emoji_decision(reactions[i].emoji) == Some(
                approved,
            ) <==> shows_emoji(reactions[i].emoji, text)),
    ensures
        human_decided(reactions, approved) <==> exists|i: int|
            0 <= i < reactions.len() && reactions[i].count > 1 && #[trigger] shows_emoji(
                reactions[i].emoji,
                text,
            ),
{
    if human_decided(reactions, approved) {
        let i = choose|i: int|
            0 <= i < reactions.len() && reactions[i].count > 1 && #[trigger] emoji_decision(
                reactions[i].emoji,
            ) == Some(approved);
        assert(shows_emoji(reactions[i].emoji, text));
    }
    if exists|i: int|
        0 <= i < reactions.len() && reactions[i].count > 1 && #[trigger] shows_emoji(
            reactions[i].emoji,
            text,
        ) {
        let i = choose|i: int|
            0 <= i < reactions.len() && reactions[i].count > 1 && #[trigger] shows_emoji(
                reactions[i].emoji,
                text,
            );
        assert(emoji_decision(reactions[i].emoji) == Some(approved));
    }
}

/// The decision a reaction added by the user `reactor_id` records, for the bot `own_id`: the
/// bot reacts to its own prompt to give the human something to click, so its own reactions
/// decide nothing.
pub fn decision_from_reaction_event(reactor_id: u64, own_id: u64, emoji: &ReactionEmoji) -> (r: Option<bool>)
    ensures
        reactor_id == own_id ==> r is None,
        reactor_id != own_id ==> r == emoji_decision(*emoji),
{
    if reactor_id == own_id {
        return None;
    }
    decision_from_emoji(emoji)
}

/// The text of the prompt asking to confirm `subject`.
pub open spec fn prompt_text(subject: Seq<char>) -> Seq<char> {
    "PLACEHOLDER_TITLE "@ + subject + " requires confirmation, click "@ + approve_text()
        + " to confirm or "@ + reject_text() + " to reject"@
}

/// The prompt for a payment confirmation, naming the payment's total when the payment was
/// found and falling back to just "payment" when it was not.
pub fn confirmation_prompt(payment_total: Option<&Money>) -> (r: String)
    ensures
        r@ == prompt_text(
            match payment_total {
                Some(total) => "payment of "@ + money_text(total@),
                None => "payment"@,
            },
        ),
{
    proof {
        reveal_strlit("\u{2705}");
        reveal_strlit("\u{274e}");
    }
    let mut text = String::from_str("PLACEHOLDER_TITLE ");
    match payment_total {
        Some(total) => {
            text.append("payment of ");
            let amount = total.to_string();
            text.append(amount.as_str());
        },
        None => {
            text.append("payment");
        },
    }
    text.append(" requires confirmation, click ");
    text.append(APPROVE_EMOJI);
    text.append(" to confirm or ");
    text.append(REJECT_EMOJI);
    text.append(" to reject");
    text
}

/// Where the prompt of a confirmation was posted.
#[derive(Debug, Clone, Copy, PartialEq, Eq, Structural)]
pub struct MessageRef {
    pub confirmation_id: u128,
    pub channel_id: u64,
    pub message_id: u64,
}

/// The decisions read off the prompts, by confirmation: each confirmation whose prompt message
/// has a decision gets that decision; the others are left out.
pub fn decisions_by_confirmation(
    references: &Vec<MessageRef>,
    decisions_by_message: &HashMap<u64, bool>,
) -> (r: HashMap<u128, bool>)
    requires
        forall|i: int, j: int|
            0 <= i < j < references@.len() ==> references@[i].confirmation_id
                != references@[j].confirmation_id,
    ensures
        forall|id: u128|
            r@.contains_key(id) <==> exists|i: int|
                0 <= i < references@.len() && (#[trigger] references@[i]).confirmation_id == id
                    && decisions_by_message@.contains_key(references@[i].message_id),
        forall|i: int|
            0 <= i < references@.len() && decisions_by_message@.contains_key(
                (#[trigger] references@[i]).message_id,
            ) ==> r@[references@[i].confirmation_id] == decisions_by_message@[references@[i].message_id],
{
    broadcast use vstd::std_specs::hash::group_hash_axioms;

    let mut result: HashMap<u128, bool> = HashMap::new();
    let mut i: usize = 0;
    while i < references.len()
        invariant
            i <= references@.len(),
            forall|a: int, b: int|
                0 <= a < b < references@.len() ==> references@[a].confirmation_id
                    != references@[b].confirmation_id,
            forall|id: u128|
                result@.contains_key(id) <==> exists|k: int|
                    0 <= k < i && (#[trigger] references@[k]).confirmation_id == id
                        && decisions_by_message@.contains_key(references@[k].message_id),
            forall|k: int|
                0 <= k < i && decisions_by_message@.contains_key(
                    (#[trigger] references@[k]).message_id,
                ) ==> result@[references@[k].confirmation_id]
                    == decisions_by_message@[references@[k].message_id],
        decreases references@.len() - i,
    {
        let reference = references[i];
        match decisions_by_message.get(&reference.message_id) {
            Some(approved) => {
                result.insert(reference.confirmation_id, *approved);
            },
            None => {},
        }
        i = i + 1;
    }
    result
}

/// `c` is one of the ASCII digits `0` to `9`.
pub open spec fn is_ascii_digit(c: char) -> bool {
    '0' <= c && c <= '9'
}

/// Every character of `s` is an ASCII digit.
pub open spec fn all_ascii_digits(s: Seq<char>) -> bool {
    forall|i: int| 0 <= i < s.len() ==> is_ascii_digit(#[trigger] s[i])
}

/// The number the decimal digits `s` write, most significant first.
pub open spec fn digits_value(s: Seq<char>) -> int
    decreases s.len(),
{
    if s.len() == 0 {
        0
    } else {
        digits_value(s.drop_last()) * 10 + (s.last() as int - '0' as int)
    }
}

/// The digits of an unsigned number's text: what follows one leading `+`, if there is one.
pub open spec fn unsigned_digits(s: Seq<char>) -> Seq<char> {
    if s.len() > 0 && s[0] == '+' {
        s.subrange(1, s.len() as int)
    } else {
        s
    }
}

/// The `u64` that `text` writes in decimal, as `str::parse::<u64>` reads it: at least one
/// ASCII digit, after at most one leading `+`, of value at most `u64::MAX`; `None` otherwise.
pub open spec fn parsed_u64(text: Seq<char>) -> Option<u64> {
    let digits = unsigned_digits(text);
    if digits.len() > 0 && all_ascii_digits(digits) && digits_value(digits) <= u64::MAX {
        Some(digits_value(digits) as u64)
    } else {
        None
    }
}

proof fn lemma_digits_value_nonnegative(s: Seq<char>)
    requires
        all_ascii_digits(s),
    ensures
        digits_value(s) >= 0,
    decreases s.len(),
{
    if s.len() > 0 {
        assert(is_ascii_digit(s[s.len() - 1]));
        lemma_digits_value_nonnegative(s.drop_last());
    }
}

/// A number written with more digits is at least the number its leading digits write.
proof fn lemma_digits_prefix_le(s: Seq<char>, k: int)
    requires
        all_ascii_digits(s),
        0 <= k <= s.len(),
    ensures
        digits_value(s.subrange(0, k)) <= digits_value(s),
    decreases s.len(),
{
    if k == s.len() {
        assert(s.subrange(0, k) =~= s);
    } else {
        let t = s.drop_last();
        assert(all_ascii_digits(t)) by {
            assert forall|i: int| 0 <= i < t.len() implies is_ascii_digit(#[trigger] t[i]) by {
                assert(t[i] == s[i]);
            }
        }
        assert(is_ascii_digit(s[s.len() - 1]));
        lemma_digits_prefix_le(t, k);
        lemma_digits_value_nonnegative(t);
        assert(t.subrange(0, k) =~= s.subrange(0, k));
    }
}

/// The channel identifier that the configured text `raw` writes, read as `str::parse::<u64>`
/// reads it; `None` when it is not such a number.
pub fn channel_id_from_text(raw: &str) -> (r: Option<u64>)
    ensures
        r == parsed_u64(raw@),
{
    let n = raw.unicode_len();
    let mut start: usize = 0;
    if n > 0 && raw.get_char(0) == '+' {
        start = 1;
    }
    let ghost digits = unsigned_digits(raw@);
    assert(digits =~= raw@.subrange(start as int, n as int));
    if start >= n {
        return None;
    }
    let mut i: usize = start;
    let mut value: u64 = 0;
    while i < n
        invariant
            n == raw@.len(),
            start < n,
            start <= i <= n,
            digits == raw@.subrange(start as int, n as int),
            digits == unsigned_digits(raw@),
            all_ascii_digits(raw@.subrange(start as int, i as int)),
            value == digits_value(raw@.subrange(start as int, i as int)),
        decreases n - i,
    {
        let c = raw.get_char(i);
        let ghost prefix = raw@.subrange(start as int, i as int);
        let ghost longer = raw@.subrange(start as int, i + 1);
        assert(longer.drop_last() =~= prefix);
        assert(longer.last() == c);
        if c < '0' || c > '9' {
            assert(digits[i - start] == c);
            assert(!is_ascii_digit(digits[i - start]));
            assert(!all_ascii_digits(digits));
            return None;
        }
        let digit: u64 = (c as u32 - '0' as u32) as u64;
        assert(digits_value(longer) == value * 10 + digit);
        if value > 1844674407370955161 || (value == 1844674407370955161 && digit > 5) {
            proof {
                if all_ascii_digits(digits) {
                    lemma_digits_prefix_le(digits, i + 1 - start);
                    assert(digits.subrange(0, i + 1 - start) =~= longer);
                    assert(digits_value(digits) > u64::MAX);
                }
            }
            return None;
        }
        value = value * 10 + digit;
        i = i + 1;
        assert(all_ascii_digits(raw@.subrange(start as int, i as int))) by {
            assert forall|j: int| 0 <= j < longer.len() implies is_ascii_digit(#[trigger] longer[j]) by {
                if j < prefix.len() {
                    assert(longer[j] == prefix[j]);
                }
            }
        }
    }
    Some(value)
}

} // verus!

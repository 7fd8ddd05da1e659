//! The pure decision cores of the bot's commands. The surrounding program
//! performs the outbound sends and the store round-trips; these functions
//! decide, from plain state and the content store, what changes and what
//! message text is produced.

use vstd::prelude::*;
use vstd::utf8::{decode_utf8, valid_utf8};

use crate::chars::{starts_with, str_eq, str_starts_with};
use crate::content::{decode_utf8_bytes, store_lookup, Contents, SpecDocument};
use crate::escape::{escape_markdown_v2, escape_seq};
use crate::render::RenderError;

verus! {

/// What fetching a named document yields: the decoded text, escaped for the
/// transport format; `ContentMissing` when the store has no such document,
/// `ContentCorrupt` when it is not valid UTF-8.
pub open spec fn fetch_escaped_spec(store: Seq<SpecDocument>, name: Seq<char>) -> Result<
    Seq<char>,
    RenderError,
> {
    match store_lookup(store, name) {
        None => Err(RenderError::ContentMissing),
        Some(bytes) => {
            if !valid_utf8(bytes) {
                Err(RenderError::ContentCorrupt)
            } else {
                Ok(escape_seq(decode_utf8(bytes)))
            }
        },
    }
}

/// Fetches a named document from the store, decodes it as UTF-8 text and
/// escapes it for the transport format.
pub fn fetch_escaped(store: &Contents, name: &str) -> (r: Result<String, RenderError>)
    ensures
        r matches Ok(text) ==> fetch_escaped_spec(store@, name@) == Ok::<Seq<char>, RenderError>(
            text@,
        ),
        r matches Err(e) ==> fetch_escaped_spec(store@, name@) == Err::<Seq<char>, RenderError>(e),
{
    let data = match store.get(name) {
        Some(data) => data,
        None => {
            return Err(RenderError::ContentMissing);
        },
    };
    match decode_utf8_bytes(data) {
        Some(text) => Ok(escape_markdown_v2(text)),
        None => Err(RenderError::ContentCorrupt),
    }
}

/// The advent-calendar broadcast command.
pub struct AdventCommand;

impl AdventCommand {
    /// The message `load_content` produces: the escaped advent document, or
    /// the user-facing message naming the configuration defect.
    pub open spec fn load_content_spec(store: Seq<SpecDocument>) -> Result<Seq<char>, Seq<char>> {
        match fetch_escaped_spec(store, "advent.md"@) {
            Ok(text) => Ok(text),
            Err(RenderError::ContentMissing) => Err("Файл advent.md не найден"@),
            Err(RenderError::ContentCorrupt) => Err("Ошибка при загрузке файла advent.md"@),
        }
    }

    /// Loads and escapes the advent document from the store.
    pub fn load_content(store: &Contents) -> (r: Result<String, String>)
        ensures
            r matches Ok(text) ==> Self::load_content_spec(store@) == Ok::<Seq<char>, Seq<char>>(
                text@,
            ),
            r matches Err(msg) ==> Self::load_content_spec(store@) == Err::<Seq<char>, Seq<char>>(
                msg@,
            ),
    {
        match fetch_escaped(store, "advent.md") {
            Ok(text) => Ok(text),
            Err(RenderError::ContentMissing) => Err(String::from_str("Файл advent.md не найден")),
            Err(RenderError::ContentCorrupt) => Err(
                String::from_str("Ошибка при загрузке файла advent.md"),
            ),
        }
    }
}

/// How many of the outcomes are successes.
pub open spec fn count_true(outcomes: Seq<bool>) -> int
    decreases outcomes.len(),
{
    if outcomes.len() == 0 {
        0
    } else {
        count_true(outcomes.drop_last()) + if outcomes.last() {
            1int
        } else {
            0int
        }
    }
}

/// The success count never exceeds the number of outcomes.
pub proof fn lemma_count_true_bound(outcomes: Seq<bool>)
    ensures
        0 <= count_true(outcomes) <= outcomes.len(),
    decreases outcomes.len(),
{
    if outcomes.len() > 0 {
        lemma_count_true_bound(outcomes.drop_last());
    }
}

/// The recipients that remain after dropping the blacklisted ones, in their
/// original order.
pub open spec fn allowed_recipients(users: Seq<i64>, blacklist: Seq<i64>) -> Seq<i64>
    decreases users.len(),
{
    if users.len() == 0 {
        Seq::empty()
    } else {
        let rest = allowed_recipients(users.drop_last(), blacklist);
        if blacklist.contains(users.last()) {
            rest
        } else {
            rest.push(users.last())
        }
    }
}

/// The admin broadcast command.
pub struct BroadcastCommand;

impl BroadcastCommand {
    /// The users a broadcast goes to: all stored users except the blacklisted
    /// ones, in stored order.
    pub fn recipients(users: &Vec<i64>, blacklist: &Vec<i64>) -> (r: Vec<i64>)
        ensures
            r@ == allowed_recipients(users@, blacklist@),
    {
        let mut out: Vec<i64> = Vec::new();
        let mut i: usize = 0;
        while i < users.len()
            invariant
                i <= users.len(),
                out@ =~= allowed_recipients(users@.take(i as int), blacklist@),
            decreases users.len() - i,
        {
            let ghost pre = out@;
            if !contains_i64(blacklist, users[i]) {
                out.push(users[i]);
            }
            i = i + 1;
            proof {
                let t = users@.take(i as int);
                assert(t.drop_last() =~= users@.take(i as int - 1));
                assert(t.last() == users@[i as int - 1]);
            }
        }
        proof {
            assert(users@.take(users.len() as int) =~= users@);
        }
        out
    }

    /// The summary of a finished broadcast: how many sends succeeded and how
    /// many failed. Every recipient's outcome is counted, a single failure
    /// never aborts the batch: the two counts always sum to the batch size.
    pub fn tally(outcomes: &Vec<bool>) -> (counts: (usize, usize))
        ensures
            counts.0 == count_true(outcomes@),
            counts.1 == outcomes@.len() - count_true(outcomes@),
            counts.0 + counts.1 == outcomes@.len(),
    {
        let mut sent: usize = 0;
        let mut failed: usize = 0;
        let mut i: usize = 0;
        while i < outcomes.len()
            invariant
                i <= outcomes.len(),
                sent == count_true(outcomes@.take(i as int)),
                sent + failed == i,
            decreases outcomes.len() - i,
        {
            proof {
                let t = outcomes@.take(i as int + 1);
                assert(t.drop_last() =~= outcomes@.take(i as int));
                assert(t.last() == outcomes@[i as int]);
                lemma_count_true_bound(outcomes@.take(i as int));
            }
            if outcomes[i] {
                sent = sent + 1;
            } else {
                failed = failed + 1;
            }
            i = i + 1;
        }
        proof {
            assert(outcomes@.take(outcomes.len() as int) =~= outcomes@);
        }
        (sent, failed)
    }
}

/// Whether the blacklist holds the given user.
fn contains_i64(list: &Vec<i64>, x: i64) -> (r: bool)
    ensures
        r == list@.contains(x),
{
    let mut i: usize = 0;
    while i < list.len()
        invariant
            i <= list.len(),
            forall|j: int| 0 <= j < i ==> list@[j] != x,
        decreases list.len() - i,
    {
        if list[i] == x {
            return true;
        }
        i = i + 1;
    }
    false
}

/// What an inbound callback payload asks for: changing a subscription, or
/// plain navigation to a route.
pub enum CallbackAction {
    Subscribe(String),
    Unsubscribe(String),
    Navigate(String),
}

/// Mathematical value of a [`CallbackAction`].
pub enum SpecCallbackAction {
    Subscribe(Seq<char>),
    Unsubscribe(Seq<char>),
    Navigate(Seq<char>),
}

impl DeepView for CallbackAction {
    type V = SpecCallbackAction;

    open spec fn deep_view(&self) -> SpecCallbackAction {
        match self {
            CallbackAction::Subscribe(topic) => SpecCallbackAction::Subscribe(topic@),
            CallbackAction::Unsubscribe(topic) => SpecCallbackAction::Unsubscribe(topic@),
            CallbackAction::Navigate(text) => SpecCallbackAction::Navigate(text@),
        }
    }
}

/// What a callback payload asks for: a subscribe prefix carries the topic
/// behind it, an unsubscribe prefix likewise; anything else is navigation.
pub open spec fn classify_callback_spec(text: Seq<char>) -> SpecCallbackAction {
    if starts_with(text, "/subscribe_"@) {
        SpecCallbackAction::Subscribe(text.skip("/subscribe_"@.len() as int))
    } else if starts_with(text, "/unsubscribe_"@) {
        SpecCallbackAction::Unsubscribe(text.skip("/unsubscribe_"@.len() as int))
    } else {
        SpecCallbackAction::Navigate(text)
    }
}

/// Classifies an inbound callback payload.
pub fn classify_callback(text: &str) -> (r: CallbackAction)
    ensures
        r.deep_view() == classify_callback_spec(text@),
{
    let subscribe_prefix = "/subscribe_";
    let unsubscribe_prefix = "/unsubscribe_";
    if str_starts_with(text, subscribe_prefix) {
        let topic = text.substring_char(subscribe_prefix.unicode_len(), text.unicode_len());
        proof {
            assert(text@.subrange("/subscribe_"@.len() as int, text@.len() as int) =~= text@.skip(
                "/subscribe_"@.len() as int,
            ));
        }
        CallbackAction::Subscribe(topic.to_owned())
    } else if str_starts_with(text, unsubscribe_prefix) {
        let topic = text.substring_char(unsubscribe_prefix.unicode_len(), text.unicode_len());
        proof {
            assert(text@.subrange("/unsubscribe_"@.len() as int, text@.len() as int) =~= text@.skip(
                "/unsubscribe_"@.len() as int,
            ));
        }
        CallbackAction::Unsubscribe(topic.to_owned())
    } else {
        CallbackAction::Navigate(text.to_owned())
    }
}

/// Whether the topic is among the subscriptions.
pub open spec fn subscribed(subs: Seq<Seq<char>>, topic: Seq<char>) -> bool {
    subs.contains(topic)
}

/// The subscriptions that remain after dropping every occurrence of the topic,
/// in their original order.
pub open spec fn without_topic(subs: Seq<Seq<char>>, topic: Seq<char>) -> Seq<Seq<char>>
    decreases subs.len(),
{
    if subs.len() == 0 {
        Seq::empty()
    } else {
        let rest = without_topic(subs.drop_last(), topic);
        if subs.last() == topic {
            rest
        } else {
            rest.push(subs.last())
        }
    }
}

/// Dropping a topic that is not subscribed changes nothing.
pub proof fn lemma_without_topic_absent(subs: Seq<Seq<char>>, topic: Seq<char>)
    requires
        !subscribed(subs, topic),
    ensures
        without_topic(subs, topic) == subs,
    decreases subs.len(),
{
    if subs.len() > 0 {
        assert(subs.last() != topic);
        assert(!subscribed(subs.drop_last(), topic)) by {
            if subs.drop_last().contains(topic) {
                let i = choose|i: int|
                    0 <= i < subs.drop_last().len() && subs.drop_last()[i] == topic;
                assert(subs[i] == topic);
            }
        }
        lemma_without_topic_absent(subs.drop_last(), topic);
        assert(without_topic(subs, topic) =~= subs);
    } else {
        assert(without_topic(subs, topic) =~= subs);
    }
}

/// The per-user subscription command.
pub struct SubscriptionCommand;

impl SubscriptionCommand {
    /// Whether the user's subscriptions include the topic.
    pub fn is_subscribed(subs: &Vec<String>, topic: &str) -> (r: bool)
        ensures
            r == subscribed(subs.deep_view(), topic@),
    {
        let mut i: usize = 0;
        while i < subs.len()
            invariant
                i <= subs.len(),
                forall|j: int| 0 <= j < i ==> subs.deep_view()[j] != topic@,
            decreases subs.len() - i,
        {
            if str_eq(subs[i].as_str(), topic) {
                proof {
                    assert(subs.deep_view()[i as int] == topic@);
                }
                return true;
            }
            i = i + 1;
        }
        false
    }

    /// Adds the topic to the subscriptions unless it is already there; reports
    /// whether anything was added.
    pub fn subscribe(subs: &mut Vec<String>, topic: &str) -> (added: bool)
        ensures
            added == !subscribed(old(subs).deep_view(), topic@),
            added ==> final(subs).deep_view() == old(subs).deep_view().push(topic@),
            !added ==> final(subs).deep_view() == old(subs).deep_view(),
    {
        if Self::is_subscribed(subs, topic) {
            return false;
        }
        let ghost pre = subs.deep_view();
        subs.push(topic.to_owned());
        proof {
            assert(subs.deep_view() =~= pre.push(topic@));
        }
        true
    }

    /// Drops every occurrence of the topic from the subscriptions; reports
    /// whether anything was subscribed to begin with.
    pub fn unsubscribe(subs: &mut Vec<String>, topic: &str) -> (removed: bool)
        ensures
            removed == subscribed(old(subs).deep_view(), topic@),
            final(subs).deep_view() == without_topic(old(subs).deep_view(), topic@),
            !removed ==> final(subs).deep_view() == old(subs).deep_view(),
    {
        let had = Self::is_subscribed(subs, topic);
        if !had {
            proof {
                lemma_without_topic_absent(subs.deep_view(), topic@);
            }
            return false;
        }
        let ghost all = subs.deep_view();
        let mut kept: Vec<String> = Vec::new();
        let mut i: usize = 0;
        while i < subs.len()
            invariant
                all == subs.deep_view(),
                i <= subs.len(),
                kept.deep_view() =~= without_topic(all.take(i as int), topic@),
            decreases subs.len() - i,
        {
            let ghost pre = kept.deep_view();
            if !str_eq(subs[i].as_str(), topic) {
                kept.push(subs[i].clone());
            }
            i = i + 1;
            proof {
                let t = all.take(i as int);
                assert(t.drop_last() =~= all.take(i as int - 1));
                assert(t.last() == all[i as int - 1]);
            }
        }
        proof {
            assert(all.take(subs.len() as int) =~= all);
        }
        *subs = kept;
        true
    }
}

/// The stop command: drops every subscription at once.
pub struct StopCommand;

impl StopCommand {
    /// The message `handle` produces: a confirmation from the store when
    /// anything was unsubscribed, a fixed notice otherwise.
    pub open spec fn stop_message(had_any: bool, store: Seq<SpecDocument>) -> Seq<char> {
        if !had_any {
            "Вы не подписаны ни на одну рассылку."@
        } else {
            match fetch_escaped_spec(store, "unsubscribe_advent.md"@) {
                Ok(text) => text,
                Err(RenderError::ContentMissing) => "Файл unsubscribe_advent.md не найден"@,
                Err(RenderError::ContentCorrupt) => "Ошибка при загрузке файла unsubscribe_advent.md"@,
            }
        }
    }

    /// Drops all subscriptions and produces the message to show the user.
    pub fn handle(subs: &mut Vec<String>, store: &Contents) -> (msg: String)
        ensures
            final(subs).deep_view() == Seq::<Seq<char>>::empty(),
            msg@ == Self::stop_message(old(subs).deep_view().len() > 0, store@),
    {
        let had_any = subs.len() > 0;
        subs.clear();
        proof {
            assert(subs.deep_view() =~= Seq::<Seq<char>>::empty());
        }
        if !had_any {
            return String::from_str("Вы не подписаны ни на одну рассылку.");
        }
        match fetch_escaped(store, "unsubscribe_advent.md") {
            Ok(text) => text,
            Err(RenderError::ContentMissing) => String::from_str(
                "Файл unsubscribe_advent.md не найден",
            ),
            Err(RenderError::ContentCorrupt) => String::from_str(
                "Ошибка при загрузке файла unsubscribe_advent.md",
            ),
        }
    }
}

/// The plain content command: sending a resolved route's content to a chat.
/// Its whole decision core is `build_details` and `build_details_with_user`;
/// the outbound send stays with the surrounding program.
pub struct ContentCommand;

} // verus!

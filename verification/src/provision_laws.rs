//! What provisioning promises: it creates what is missing and nothing else, and a second run finds
//! what the first one created.
use crate::provision::{
    absorbed, adds_up, begun, concluded, known_rids, logs_title, missing_places, replied,
    ProvisionState, Reply,
};
use crate::satgen::satellite_name;
use crate::text::{decimal, decimal_holds_digits, decimal_nonempty};
use vstd::prelude::*;

verus! {

/// An asset is asked for exactly if the search has not found it.
pub proof fn only_what_is_missing_is_created(
    names: Seq<Seq<char>>,
    found: Map<Seq<char>, Seq<char>>,
    n: nat,
    place: usize,
)
    requires
        n <= names.len() <= usize::MAX,
    ensures
        missing_places(names, found, n).contains(place) <==> (place < n && !found.dom().contains(
            names[place as int],
        )),
        missing_places(names, found, n).len() <= n,
    decreases n,
{
    if n > 0 {
        let before = missing_places(names, found, (n - 1) as nat);
        let now = missing_places(names, found, n);
        only_what_is_missing_is_created(names, found, (n - 1) as nat, place);
        if !found.dom().contains(names[n - 1]) {
            assert(now[before.len() as int] == (n - 1) as usize);
            if before.contains(place) {
                let i = choose|i: int| 0 <= i < before.len() && before[i] == place;
                assert(now[i] == place);
            }
            if now.contains(place) {
                let i = choose|i: int| 0 <= i < now.len() && now[i] == place;
                if i < before.len() {
                    assert(before[i] == place);
                }
            }
        }
    }
}

/// No satellite is asked for twice.
pub proof fn each_missing_asset_is_created_once(
    names: Seq<Seq<char>>,
    found: Map<Seq<char>, Seq<char>>,
    n: nat,
)
    requires
        n <= names.len() <= usize::MAX,
    ensures
        missing_places(names, found, n).no_duplicates(),
    decreases n,
{
    if n > 0 {
        each_missing_asset_is_created_once(names, found, (n - 1) as nat);
        only_what_is_missing_is_created(names, found, (n - 1) as nat, (n - 1) as usize);
    }
}

/// Where everything has been found, nothing is created: provisioning again changes nothing.
pub proof fn nothing_missing_nothing_created(
    names: Seq<Seq<char>>,
    found: Map<Seq<char>, Seq<char>>,
    n: nat,
)
    requires
        n <= names.len(),
        forall|i: int| 0 <= i < names.len() ==> found.dom().contains(#[trigger] names[i]),
    ensures
        missing_places(names, found, n) == Seq::<usize>::empty(),
    decreases n,
{
    if n > 0 {
        nothing_missing_nothing_created(names, found, (n - 1) as nat);
        assert(found.dom().contains(names[n - 1]));
    }
}

/// Where every satellite's asset is known, the list holds one asset for each, in order.
pub proof fn complete_lists_follow_the_satellites(
    names: Seq<Seq<char>>,
    known: Map<Seq<char>, Seq<char>>,
)
    requires
        forall|i: int| 0 <= i < names.len() ==> known.dom().contains(#[trigger] names[i]),
    ensures
        known_rids(names, known).len() == names.len(),
        forall|i: int| 0 <= i < names.len() ==> #[trigger] known_rids(names, known)[i] == known[names[i]],
    decreases names.len(),
{
    if names.len() > 0 {
        assert(known.dom().contains(names[names.len() - 1]));
        assert forall|i: int| 0 <= i < names.drop_last().len() implies known.dom().contains(
            #[trigger] names.drop_last()[i],
        ) by {
            assert(names.drop_last()[i] == names[i]);
        }
        complete_lists_follow_the_satellites(names.drop_last(), known);
        let before = known_rids(names.drop_last(), known);
        assert forall|i: int| 0 <= i < names.len() implies #[trigger] known_rids(names, known)[i]
            == known[names[i]] by {
            if i < names.len() - 1 {
                assert(before[i] == known[names.drop_last()[i]]);
            }
        }
    }
}

/// The state after a series of replies.
pub open spec fn after_replies(s: ProvisionState, replies: Seq<(int, Reply)>) -> ProvisionState
    decreases replies.len(),
{
    if replies.len() == 0 {
        s
    } else {
        replied(after_replies(s, replies.drop_last()), replies.last().0, replies.last().1)
    }
}

/// Replies that could be given: for satellites of the batch, and no more than were asked for.
pub open spec fn fits(s: ProvisionState, replies: Seq<(int, Reply)>) -> bool {
    replies.len() <= s.unanswered && forall|i: int|
        0 <= i < replies.len() ==> 0 <= (#[trigger] replies[i]).0 < s.names.len()
}

/// Replies never lose an asset, and leave the satellites and the counts in step.
pub proof fn replies_keep_what_is_known(s: ProvisionState, replies: Seq<(int, Reply)>)
    requires
        adds_up(s),
        fits(s, replies),
    ensures
        adds_up(after_replies(s, replies)),
        after_replies(s, replies).names == s.names,
        after_replies(s, replies).logs_title == s.logs_title,
        after_replies(s, replies).existing == s.existing,
        after_replies(s, replies).unanswered == s.unanswered - replies.len(),
        forall|name: Seq<char>|
            s.known.dom().contains(name) ==> #[trigger] after_replies(
                s,
                replies,
            ).known.dom().contains(name),
        forall|i: int|
            0 <= i < replies.len() && (#[trigger] replies[i]).1 is Created ==> after_replies(
                s,
                replies,
            ).known.dom().contains(s.names[replies[i].0]),
    decreases replies.len(),
{
    if replies.len() > 0 {
        let fewer = replies.drop_last();
        assert forall|i: int| 0 <= i < fewer.len() implies 0 <= (#[trigger] fewer[i]).0
            < s.names.len() by {
            assert(fewer[i] == replies[i]);
        }
        assert(0 <= replies[replies.len() - 1].0 < s.names.len());
        replies_keep_what_is_known(s, fewer);
        let mid = after_replies(s, fewer);
        let end = after_replies(s, replies);
        assert forall|i: int| 0 <= i < replies.len() && (
        #[trigger] replies[i]).1 is Created implies end.known.dom().contains(
            s.names[replies[i].0],
        ) by {
            if i < fewer.len() {
                assert(fewer[i] == replies[i]);
            }
        }
    }
}

/// Without refusals there is no failure and no error.
pub proof fn created_replies_do_not_fail(s: ProvisionState, replies: Seq<(int, Reply)>)
    requires
        forall|i: int| 0 <= i < replies.len() ==> (#[trigger] replies[i]).1 is Created,
    ensures
        after_replies(s, replies).failed == s.failed,
        after_replies(s, replies).first_error == s.first_error,
        after_replies(s, replies).created == s.created + replies.len(),
    decreases replies.len(),
{
    if replies.len() > 0 {
        let fewer = replies.drop_last();
        assert forall|i: int| 0 <= i < fewer.len() implies (#[trigger] fewer[i]).1 is Created by {
            assert(fewer[i] == replies[i]);
        }
        assert(replies[replies.len() - 1].1 is Created);
        created_replies_do_not_fail(s, fewer);
    }
}

proof fn lemma_all_are_known(
    names: Seq<Seq<char>>,
    prefix: Seq<char>,
    found: Map<Seq<char>, Seq<char>>,
    replies: Seq<(int, Reply)>,
)
    requires
        names.len() <= usize::MAX,
        fits(begun(names, prefix, found), replies),
        forall|i: int| 0 <= i < replies.len() ==> (#[trigger] replies[i]).1 is Created,
        forall|place: usize|
            #[trigger] missing_places(names, found, names.len()).contains(place) ==> exists|i: int|
                0 <= i < replies.len() && (#[trigger] replies[i]).0 == place,
    ensures
        forall|i: int|
            0 <= i < names.len() ==> after_replies(
                begun(names, prefix, found),
                replies,
            ).known.dom().contains(#[trigger] names[i]),
{
    let start = begun(names, prefix, found);
    let end = after_replies(start, replies);
    only_what_is_missing_is_created(names, found, names.len(), 0);
    replies_keep_what_is_known(start, replies);
    assert forall|i: int| 0 <= i < names.len() implies end.known.dom().contains(
        #[trigger] names[i],
    ) by {
        if !found.dom().contains(names[i]) {
            only_what_is_missing_is_created(names, found, names.len(), i as usize);
            let k = choose|k: int| 0 <= k < replies.len() && (#[trigger] replies[k]).0 == i as usize;
            assert(replies[k].1 is Created);
        }
    }
}

/// Provisioning is complete once every missing asset has been created: the list then holds one
/// asset for each satellite, in order, and a second run over what is then known creates nothing.
pub proof fn provisioning_is_idempotent(
    names: Seq<Seq<char>>,
    prefix: Seq<char>,
    found: Map<Seq<char>, Seq<char>>,
    replies: Seq<(int, Reply)>,
)
    requires
        names.len() <= usize::MAX,
        fits(begun(names, prefix, found), replies),
        forall|i: int| 0 <= i < replies.len() ==> (#[trigger] replies[i]).1 is Created,
        forall|place: usize|
            #[trigger] missing_places(names, found, names.len()).contains(place) ==> exists|i: int|
                0 <= i < replies.len() && (#[trigger] replies[i]).0 == place,
    ensures
        ({
            let end = after_replies(begun(names, prefix, found), replies);
            &&& end.failed == 0
            &&& end.first_error is None
            &&& end.created == replies.len()
            &&& known_rids(names, end.known).len() == names.len()
            &&& begun(names, prefix, end.known).unanswered == 0
            &&& begun(names, prefix, end.known).existing == names.len()
        }),
{
    let start = begun(names, prefix, found);
    let end = after_replies(start, replies);
    only_what_is_missing_is_created(names, found, names.len(), 0);
    replies_keep_what_is_known(start, replies);
    created_replies_do_not_fail(start, replies);
    lemma_all_are_known(names, prefix, found, replies);
    complete_lists_follow_the_satellites(names, end.known);
    nothing_missing_nothing_created(names, end.known, names.len());
}

/// Where the logs asset is known too, concluding asks for nothing: the outcome counts no creation
/// and no failure beyond those of the satellites.
pub proof fn known_logs_are_not_created(s: ProvisionState)
    requires
        s.known.dom().contains(s.logs_title),
    ensures
        concluded(s, None).created == s.created,
        concluded(s, None).failed == s.failed,
        concluded(s, None).asset_rids == known_rids(s.names, s.known).push(s.known[s.logs_title]),
{
}

/// The outcome accounts for every satellite and for a logs asset that was asked for.
pub proof fn outcomes_add_up(s: ProvisionState, logs: Option<Reply>)
    requires
        adds_up(s),
        s.unanswered == 0,
    ensures
        ({
            let outcome = concluded(s, logs);
            outcome.existing + outcome.created + outcome.failed == s.names.len() + if logs is Some
                && !s.known.dom().contains(s.logs_title) {
                1int
            } else {
                0int
            }
        }),
{
}

/// An outcome carries an error exactly if something failed.
pub proof fn failures_carry_an_error(s: ProvisionState, logs: Option<Reply>)
    requires
        s.failed > 0 <==> s.first_error is Some,
    ensures
        concluded(s, logs).failed > 0 <==> concluded(s, logs).first_error is Some,
        forall|place: int, reply: Reply|
            (#[trigger] replied(s, place, reply)).failed > 0 <==> replied(
                s,
                place,
                reply,
            ).first_error is Some,
{
}

/// The first error stays: later ones do not replace it.
pub proof fn the_first_error_stays(s: ProvisionState, place: int, reply: Reply)
    requires
        s.first_error is Some,
    ensures
        replied(s, place, reply).first_error == s.first_error,
{
}

/// The logs asset is never mistaken for a satellite's, not even for one of another batch.
pub proof fn logs_are_no_satellite(prefix: Seq<char>, other: Seq<char>, number: nat)
    ensures
        logs_title(prefix) != satellite_name(other, number),
{
    reveal_strlit(" logs");
    let title = logs_title(prefix);
    let name = satellite_name(other, number);
    assert(title.last() == 's');
    decimal_nonempty(number);
    decimal_holds_digits(number, decimal(number).len() - 1);
    assert(name.last() == decimal(number).last());
}

/// Pages found one after the other are one list: of a title that stands on several, the last
/// identifier counts.
pub proof fn pages_add_up(
    known: Map<Seq<char>, Seq<char>>,
    first: Seq<(Seq<char>, Seq<char>)>,
    second: Seq<(Seq<char>, Seq<char>)>,
)
    ensures
        absorbed(absorbed(known, first), second) == absorbed(known, first + second),
    decreases second.len(),
{
    if second.len() == 0 {
        assert(first + second =~= first);
    } else {
        pages_add_up(known, first, second.drop_last());
        assert((first + second).drop_last() =~= first + second.drop_last());
    }
}

proof fn lemma_other_titles_change_nothing(
    names: Seq<Seq<char>>,
    known: Map<Seq<char>, Seq<char>>,
    title: Seq<char>,
    rid: Seq<char>,
)
    requires
        !names.contains(title),
    ensures
        known_rids(names, known.insert(title, rid)) == known_rids(names, known),
    decreases names.len(),
{
    if names.len() > 0 {
        let fewer = names.drop_last();
        assert(names.last() != title) by {
            assert(names[names.len() - 1] == names.last());
        }
        assert(!fewer.contains(title)) by {
            if fewer.contains(title) {
                let i = choose|i: int| 0 <= i < fewer.len() && fewer[i] == title;
                assert(names[i] == title);
            }
        }
        lemma_other_titles_change_nothing(fewer, known, title, rid);
    }
}

/// The assets that exist once the logs asset has been asked for where it was missing, and created
/// under `rid`.
pub open spec fn with_logs(s: ProvisionState, rid: Seq<char>) -> Map<Seq<char>, Seq<char>> {
    if s.known.dom().contains(s.logs_title) {
        s.known
    } else {
        s.known.insert(s.logs_title, rid)
    }
}

/// The reply for the logs asset, where it was asked for and created under `rid`.
pub open spec fn logs_reply(s: ProvisionState, rid: Seq<char>) -> Option<Reply> {
    if s.known.dom().contains(s.logs_title) {
        None
    } else {
        Some(Reply::Created(rid))
    }
}

/// A second run after a complete one creates nothing at all, neither for a satellite nor for the
/// logs, and comes to the same list: one asset for each satellite, in order, and the logs asset
/// last.
pub proof fn second_runs_list_the_same_assets(
    names: Seq<Seq<char>>,
    prefix: Seq<char>,
    found: Map<Seq<char>, Seq<char>>,
    replies: Seq<(int, Reply)>,
    rid: Seq<char>,
)
    requires
        names.len() <= usize::MAX,
        !names.contains(logs_title(prefix)),
        fits(begun(names, prefix, found), replies),
        forall|i: int| 0 <= i < replies.len() ==> (#[trigger] replies[i]).1 is Created,
        forall|place: usize|
            #[trigger] missing_places(names, found, names.len()).contains(place) ==> exists|i: int|
                0 <= i < replies.len() && (#[trigger] replies[i]).0 == place,
    ensures
        ({
            let end = after_replies(begun(names, prefix, found), replies);
            let first = concluded(end, logs_reply(end, rid));
            let all = with_logs(end, rid);
            let again = begun(names, prefix, all);
            let second = concluded(again, None);
            &&& again.unanswered == 0
            &&& again.known.dom().contains(again.logs_title)
            &&& second.asset_rids == first.asset_rids
            &&& second.existing == names.len()
            &&& second.created == 0
            &&& second.failed == 0
            &&& second.first_error is None
            &&& second.asset_rids.len() == names.len() + 1
            &&& second.asset_rids.last() == all[logs_title(prefix)]
            &&& forall|i: int|
                0 <= i < names.len() ==> #[trigger] second.asset_rids[i] == all[names[i]]
        }),
{
    let start = begun(names, prefix, found);
    let end = after_replies(start, replies);
    let all = with_logs(end, rid);
    let title = logs_title(prefix);
    lemma_all_are_known(names, prefix, found, replies);
    only_what_is_missing_is_created(names, found, names.len(), 0);
    replies_keep_what_is_known(start, replies);
    if !end.known.dom().contains(title) {
        lemma_other_titles_change_nothing(names, end.known, title, rid);
    }
    assert forall|i: int| 0 <= i < names.len() implies all.dom().contains(#[trigger] names[i]) by {
        assert(end.known.dom().contains(names[i]));
    }
    complete_lists_follow_the_satellites(names, all);
    nothing_missing_nothing_created(names, all, names.len());
}

} // verus!

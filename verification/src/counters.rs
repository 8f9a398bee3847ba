//! Counting channels: simple integer series, plain and tagged, that repeat over and over.
use crate::text::{decimal, decimal_text, push_decimal, push_signed, signed_decimal};
use vstd::prelude::*;
use vstd::string::*;

verus! {

/// The values of one cycle.
#[derive(Clone, Copy, PartialEq, Eq, Structural, Debug)]
pub struct Values {
    /// 0, 1, 0, 1, ...
    pub toggle: i64,
    /// 1, 2, 3, 4, 1, ...
    pub count4: i64,
    /// 1, 2, ..., 30, 1, ...
    pub count30: i64,
    /// -1, 1, -1, 1, ...
    pub flip1: i64,
    /// -2, 2, -2, 2, ...
    pub flip2: i64,
    /// 1, 4, 1, 4, ...
    pub flip14: i64,
    /// 2, 3, 2, 3, ...
    pub flip23: i64,
}

/// The first value in even cycles, the second in odd ones.
pub open spec fn alternating(cycle: u64, even: int, odd: int) -> i64 {
    if cycle % 2 == 0 {
        even as i64
    } else {
        odd as i64
    }
}

/// The values of a cycle.
pub open spec fn values_at(cycle: u64) -> Values {
    Values {
        toggle: (cycle % 2) as i64,
        count4: (cycle % 4 + 1) as i64,
        count30: (cycle % 30 + 1) as i64,
        flip1: alternating(cycle, -1, 1),
        flip2: alternating(cycle, -2, 2),
        flip14: alternating(cycle, 1, 4),
        flip23: alternating(cycle, 2, 3),
    }
}

/// One point: a channel, a tag where it has one, and a value.
#[derive(Debug)]
pub struct Emission {
    pub channel: &'static str,
    pub tag: Option<String>,
    pub value: i64,
}

/// One point, with texts as characters.
pub struct EmissionTree {
    pub channel: Seq<char>,
    pub tag: Option<Seq<char>>,
    pub value: i64,
}

impl View for Emission {
    type V = EmissionTree;

    open spec fn view(&self) -> EmissionTree {
        EmissionTree {
            channel: self.channel@,
            tag: match self.tag {
                Some(t) => Some(t@),
                None => None,
            },
            value: self.value,
        }
    }
}

/// The views of a list of points.
pub open spec fn emission_trees(list: Seq<Emission>) -> Seq<EmissionTree> {
    list.map_values(|e: Emission| e@)
}

/// A point without a tag.
pub open spec fn plain(channel: Seq<char>, value: i64) -> EmissionTree {
    EmissionTree { channel, tag: None, value }
}

/// A point with a tag.
pub open spec fn tagged(channel: Seq<char>, tag: Seq<char>, value: i64) -> EmissionTree {
    EmissionTree { channel, tag: Some(tag), value }
}

/// The points without a tag, one for each series.
pub open spec fn plain_points(v: Values) -> Seq<EmissionTree> {
    seq![
        plain("toggle"@, v.toggle),
        plain("count4"@, v.count4),
        plain("count30"@, v.count30),
        plain("flip-1"@, v.flip1),
        plain("flip-2"@, v.flip2),
        plain("flip-1-4"@, v.flip14),
        plain("flip-2-3"@, v.flip23),
    ]
}

/// The alternating series once more, gathered in channels that tell them apart by tags. The last
/// channel has tags whose alphabetical order is the reverse.
pub open spec fn flip_points(v: Values) -> Seq<EmissionTree> {
    seq![
        tagged("flip-around-zero"@, "flip-1"@, v.flip1),
        tagged("flip-around-zero"@, "flip-2"@, v.flip2),
        tagged("flip-positive"@, "flip-1-4"@, v.flip14),
        tagged("flip-positive"@, "flip-2-3"@, v.flip23),
        tagged("flip-positive-ab"@, "a-flip-2-3"@, v.flip23),
        tagged("flip-positive-ab"@, "b-flip-1-4"@, v.flip14),
    ]
}

/// The counting series once more under the tags 1 to `n`.
pub open spec fn repeated_points(v: Values, n: nat) -> Seq<EmissionTree>
    decreases n,
{
    if n == 0 {
        Seq::empty()
    } else {
        repeated_points(v, (n - 1) as nat) + seq![
            tagged("toggle-tagged"@, decimal(n), v.toggle),
            tagged("count4-tagged"@, decimal(n), v.count4),
            tagged("count30-tagged"@, decimal(n), v.count30),
        ]
    }
}

/// The points of one cycle, in the order in which they are sent.
pub open spec fn points_of(v: Values) -> Seq<EmissionTree> {
    plain_points(v) + flip_points(v) + repeated_points(v, 4)
}

/// The values of a cycle.
pub fn values(cycle: u64) -> (v: Values)
    ensures
        v == values_at(cycle),
{
    let even: bool = cycle % 2 == 0;
    let flip1: i64 = if even {
        -1
    } else {
        1
    };
    let flip2: i64 = if even {
        -2
    } else {
        2
    };
    let flip14: i64 = if even {
        1
    } else {
        4
    };
    let flip23: i64 = if even {
        2
    } else {
        3
    };
    Values {
        toggle: (cycle % 2) as i64,
        count4: (cycle % 4) as i64 + 1,
        count30: (cycle % 30) as i64 + 1,
        flip1,
        flip2,
        flip14,
        flip23,
    }
}

fn push_point(list: &mut Vec<Emission>, channel: &'static str, value: i64)
    ensures
        emission_trees(final(list)@) == emission_trees(old(list)@).push(plain(channel@, value)),
{
    let ghost before = emission_trees(list@);
    list.push(Emission { channel, tag: None, value });
    assert(emission_trees(list@) =~= before.push(plain(channel@, value)));
}

fn push_tagged(list: &mut Vec<Emission>, channel: &'static str, tag: String, value: i64)
    ensures
        emission_trees(final(list)@) == emission_trees(old(list)@).push(
            tagged(channel@, tag@, value),
        ),
{
    let ghost before = emission_trees(list@);
    list.push(Emission { channel, tag: Some(tag), value });
    assert(emission_trees(list@) =~= before.push(tagged(channel@, tag@, value)));
}

/// The points of one cycle, in the order in which they are sent.
pub fn emissions(v: &Values) -> (list: Vec<Emission>)
    ensures
        emission_trees(list@) == points_of(*v),
{
    let mut list: Vec<Emission> = Vec::new();
    assert(emission_trees(list@) =~= Seq::empty());
    push_point(&mut list, "toggle", v.toggle);
    push_point(&mut list, "count4", v.count4);
    push_point(&mut list, "count30", v.count30);
    push_point(&mut list, "flip-1", v.flip1);
    push_point(&mut list, "flip-2", v.flip2);
    push_point(&mut list, "flip-1-4", v.flip14);
    push_point(&mut list, "flip-2-3", v.flip23);
    assert(emission_trees(list@) =~= plain_points(*v));
    push_tagged(&mut list, "flip-around-zero", "flip-1".to_owned(), v.flip1);
    push_tagged(&mut list, "flip-around-zero", "flip-2".to_owned(), v.flip2);
    push_tagged(&mut list, "flip-positive", "flip-1-4".to_owned(), v.flip14);
    push_tagged(&mut list, "flip-positive", "flip-2-3".to_owned(), v.flip23);
    push_tagged(&mut list, "flip-positive-ab", "a-flip-2-3".to_owned(), v.flip23);
    push_tagged(&mut list, "flip-positive-ab", "b-flip-1-4".to_owned(), v.flip14);
    let ghost head = plain_points(*v) + flip_points(*v);
    assert(emission_trees(list@) =~= head + repeated_points(*v, 0));
    for tag in 0..4u64
        invariant
            emission_trees(list@) == head + repeated_points(*v, tag as nat),
    {
        push_tagged(&mut list, "toggle-tagged", decimal_text(tag + 1), v.toggle);
        push_tagged(&mut list, "count4-tagged", decimal_text(tag + 1), v.count4);
        push_tagged(&mut list, "count30-tagged", decimal_text(tag + 1), v.count30);
        assert(emission_trees(list@) =~= head + repeated_points(*v, (tag + 1) as nat));
    }
    list
}

/// The line that reports a cycle.
pub open spec fn cycle_text(cycle: u64, v: Values) -> Seq<char> {
    "cycle "@ + decimal(cycle as nat) + ": toggle="@ + signed_decimal(v.toggle as int)
        + " count4="@ + signed_decimal(v.count4 as int) + " count30="@ + signed_decimal(
        v.count30 as int,
    ) + " flip1="@ + signed_decimal(v.flip1 as int) + " flip2="@ + signed_decimal(v.flip2 as int)
        + " flip14="@ + signed_decimal(v.flip14 as int) + " flip23="@ + signed_decimal(
        v.flip23 as int,
    )
}

/// The line that reports a cycle.
pub fn cycle_line(cycle: u64, v: &Values) -> (line: String)
    ensures
        line@ == cycle_text(cycle, *v),
{
    let mut line = "cycle ".to_owned();
    push_decimal(&mut line, cycle);
    line.append(": toggle=");
    push_signed(&mut line, v.toggle);
    line.append(" count4=");
    push_signed(&mut line, v.count4);
    line.append(" count30=");
    push_signed(&mut line, v.count30);
    line.append(" flip1=");
    push_signed(&mut line, v.flip1);
    line.append(" flip2=");
    push_signed(&mut line, v.flip2);
    line.append(" flip14=");
    push_signed(&mut line, v.flip14);
    line.append(" flip23=");
    push_signed(&mut line, v.flip23);
    line
}

/// The whole pattern repeats after sixty cycles.
pub proof fn cycles_repeat_after_sixty(cycle: u64)
    requires
        cycle <= u64::MAX - 60,
    ensures
        values_at((cycle + 60) as u64) == values_at(cycle),
{
}

/// The values stay in their ranges: the toggle in 0 to 1, the counts in 1 to 4 and 1 to 30.
pub proof fn values_stay_in_range(cycle: u64)
    ensures
        0 <= values_at(cycle).toggle <= 1,
        1 <= values_at(cycle).count4 <= 4,
        1 <= values_at(cycle).count30 <= 30,
{
}

/// From one cycle to the next the toggle changes and the counts go up by one or start again.
pub proof fn values_step(cycle: u64)
    requires
        cycle < u64::MAX,
    ensures
        ({
            let now = values_at(cycle);
            let next = values_at((cycle + 1) as u64);
            &&& next.toggle == 1 - now.toggle
            &&& next.count4 == if now.count4 == 4 {
                1
            } else {
                now.count4 + 1
            }
            &&& next.count30 == if now.count30 == 30 {
                1
            } else {
                now.count30 + 1
            }
            &&& next.flip1 == -now.flip1
            &&& next.flip2 == -now.flip2
            &&& next.flip14 + now.flip14 == 5
            &&& next.flip23 + now.flip23 == 5
        }),
{
}

/// Every cycle sends one point for each channel and tag.
pub proof fn every_cycle_sends_the_same_channels(a: Values, b: Values)
    ensures
        points_of(a).len() == 25,
        points_of(a).len() == points_of(b).len(),
        forall|i: int|
            0 <= i < 25 ==> (#[trigger] points_of(a)[i]).channel == points_of(b)[i].channel
                && points_of(a)[i].tag == points_of(b)[i].tag,
{
    lemma_repeated(a, b, 4);
}

proof fn lemma_repeated(a: Values, b: Values, n: nat)
    ensures
        repeated_points(a, n).len() == 3 * n,
        repeated_points(b, n).len() == 3 * n,
        forall|i: int|
            0 <= i < 3 * n ==> (#[trigger] repeated_points(a, n)[i]).channel == repeated_points(
                b,
                n,
            )[i].channel && repeated_points(a, n)[i].tag == repeated_points(b, n)[i].tag,
    decreases n,
{
    if n > 0 {
        lemma_repeated(a, b, (n - 1) as nat);
        let fewer = repeated_points(a, (n - 1) as nat);
        let others = repeated_points(b, (n - 1) as nat);
        assert forall|i: int| 0 <= i < 3 * n implies (#[trigger] repeated_points(a, n)[i]).channel
            == repeated_points(b, n)[i].channel && repeated_points(a, n)[i].tag == repeated_points(
            b,
            n,
        )[i].tag by {
            if i < fewer.len() {
                assert(repeated_points(a, n)[i] == fewer[i]);
                assert(repeated_points(b, n)[i] == others[i]);
            }
        }
    }
}

/// A tagged point has the value of the plain point that it repeats.
pub proof fn tagged_points_repeat_plain_ones(v: Values, tag: nat)
    requires
        1 <= tag <= 4,
    ensures
        points_of(v)[13 + 3 * (tag - 1)] == tagged("toggle-tagged"@, decimal(tag), v.toggle),
        points_of(v)[14 + 3 * (tag - 1)] == tagged("count4-tagged"@, decimal(tag), v.count4),
        points_of(v)[15 + 3 * (tag - 1)] == tagged("count30-tagged"@, decimal(tag), v.count30),
{
    reveal_with_fuel(repeated_points, 5);
    lemma_repeated(v, v, 1);
    lemma_repeated(v, v, 2);
    lemma_repeated(v, v, 3);
    lemma_repeated(v, v, 4);
    let all = repeated_points(v, 4);
    assert(points_of(v).skip(13) =~= all);
    let at = 3 * (tag - 1);
    assert(points_of(v)[13 + at] == all[at]);
    assert(points_of(v)[14 + at] == all[at + 1]);
    assert(points_of(v)[15 + at] == all[at + 2]);
}

/// Each plain point carries its own series and no tag.
pub proof fn plain_points_carry_their_series(v: Values)
    ensures
        points_of(v)[0] == (EmissionTree { channel: "toggle"@, tag: None, value: v.toggle }),
        points_of(v)[1] == (EmissionTree { channel: "count4"@, tag: None, value: v.count4 }),
        points_of(v)[2] == (EmissionTree { channel: "count30"@, tag: None, value: v.count30 }),
        points_of(v)[3] == (EmissionTree { channel: "flip-1"@, tag: None, value: v.flip1 }),
        points_of(v)[4] == (EmissionTree { channel: "flip-2"@, tag: None, value: v.flip2 }),
        points_of(v)[5] == (EmissionTree { channel: "flip-1-4"@, tag: None, value: v.flip14 }),
        points_of(v)[6] == (EmissionTree { channel: "flip-2-3"@, tag: None, value: v.flip23 }),
{
}

/// The gathered channels tell the alternating series apart by their tags: each tag carries the
/// series that it names, in the last channel after the letter in front.
pub proof fn gathered_points_carry_their_series(v: Values)
    ensures
        ({
            let zero = "flip-around-zero"@;
            let positive = "flip-positive"@;
            let reversed = "flip-positive-ab"@;
            let at = |i: int| points_of(v)[7 + i];
            &&& at(0) == (EmissionTree { channel: zero, tag: Some("flip-1"@), value: v.flip1 })
            &&& at(1) == (EmissionTree { channel: zero, tag: Some("flip-2"@), value: v.flip2 })
            &&& at(2) == (EmissionTree {
                channel: positive,
                tag: Some("flip-1-4"@),
                value: v.flip14,
            })
            &&& at(3) == (EmissionTree {
                channel: positive,
                tag: Some("flip-2-3"@),
                value: v.flip23,
            })
            &&& at(4) == (EmissionTree {
                channel: reversed,
                tag: Some("a-flip-2-3"@),
                value: v.flip23,
            })
            &&& at(5) == (EmissionTree {
                channel: reversed,
                tag: Some("b-flip-1-4"@),
                value: v.flip14,
            })
        }),
{
}

/// Under the tags 1 to 4 the counting series come three at a time, each with its own value.
pub proof fn counting_points_come_under_four_tags(v: Values, n: int)
    requires
        1 <= n <= 4,
    ensures
        ({
            let tag = Some(seq![('0' as int + n) as char]);
            let at = |i: int| points_of(v)[10 + 3 * n + i];
            &&& at(0) == (EmissionTree { channel: "toggle-tagged"@, tag, value: v.toggle })
            &&& at(1) == (EmissionTree { channel: "count4-tagged"@, tag, value: v.count4 })
            &&& at(2) == (EmissionTree { channel: "count30-tagged"@, tag, value: v.count30 })
        }),
{
    tagged_points_repeat_plain_ones(v, n as nat);
    assert(decimal(n as nat) =~= seq![('0' as int + n) as char]);
}

/// The series start at zero and one and run through all their values: the toggle tells whether
/// the cycle is odd, a count is one more than the cycles since it last began, and the alternating
/// series have one value in even cycles and the other in odd ones.
pub proof fn series_follow_the_cycle(cycle: u64, rounds: int)
    requires
        0 <= rounds,
    ensures
        cycle == 2 * rounds ==> ({
            let v = values_at(cycle);
            v.toggle == 0 && v.flip1 == -1 && v.flip2 == -2 && v.flip14 == 1 && v.flip23 == 2
        }),
        cycle == 2 * rounds + 1 ==> ({
            let v = values_at(cycle);
            v.toggle == 1 && v.flip1 == 1 && v.flip2 == 2 && v.flip14 == 4 && v.flip23 == 3
        }),
        0 <= cycle - 4 * rounds < 4 ==> values_at(cycle).count4 == cycle - 4 * rounds + 1,
        0 <= cycle - 30 * rounds < 30 ==> values_at(cycle).count30 == cycle - 30 * rounds + 1,
{
}

/// The list that a cycle sends is its points, one for one: channel, tag and value.
pub proof fn sent_points_are_the_points(v: Values, list: Vec<Emission>, i: int)
    requires
        call_ensures(emissions, (&v,), list),
        0 <= i < 25,
    ensures
        list@.len() == 25,
        list@[i].channel@ == points_of(v)[i].channel,
        list@[i].value == points_of(v)[i].value,
        list@[i].tag is Some == points_of(v)[i].tag is Some,
        list@[i].tag is Some ==> list@[i].tag->0@ == points_of(v)[i].tag->0,
{
    every_cycle_sends_the_same_channels(v, v);
    assert(emission_trees(list@)[i] == list@[i]@);
}

/// The line of a cycle names every series with its value, in order.
pub proof fn cycle_lines_name_every_series(cycle: u64, v: Values)
    ensures
        cycle_text(cycle, v) == "cycle "@ + decimal(cycle as nat) + ": toggle="@ + signed_decimal(
            v.toggle as int,
        ) + " count4="@ + signed_decimal(v.count4 as int) + " count30="@ + signed_decimal(
            v.count30 as int,
        ) + " flip1="@ + signed_decimal(v.flip1 as int) + " flip2="@ + signed_decimal(
            v.flip2 as int,
        ) + " flip14="@ + signed_decimal(v.flip14 as int) + " flip23="@ + signed_decimal(
            v.flip23 as int,
        ),
{
}

/// Values and line of a cycle are those of its number.
pub proof fn cycles_have_their_values(cycle: u64, v: Values, line: String)
    requires
        call_ensures(values, (cycle,), v),
        call_ensures(cycle_line, (cycle, &v), line),
    ensures
        v == values_at(cycle),
        line@ == cycle_text(cycle, v),
{
}

} // verus!

//! What is printed of the results of simulations.

use vstd::prelude::*;
use vstd::string::*;
use vstd::utf8::*;

use crate::float;
use crate::float::less;
use crate::text;
use crate::text::{chars_of, contains_text, same_text, Text};

verus! {

/// A text that takes at most a number of bytes. The cut has to lie between two characters.
pub fn truncate(s: &str, max: usize) -> (r: &str)
    requires
        s.spec_bytes().len() > max ==> is_char_boundary(s.spec_bytes(), max as int),
    ensures
        r.spec_bytes() == (if s.spec_bytes().len() <= max {
            s.spec_bytes()
        } else {
            s.spec_bytes().take(max as int)
        }),
{
    if s.as_bytes().len() <= max {
        s
    } else {
        let r: &str = s.split_at(max).0;
        assert(r.spec_bytes() =~= s.spec_bytes().take(max as int));
        r
    }
}

// Names

/// The name of a strategy that acts on a weighted sum.
pub open spec fn is_monkey(name: Text) -> bool {
    name.len() >= 7 && name.take(7) == seq!['m', 'o', 'n', 'k', 'e', 'y', '[']
}

/// A name without what stands in front of the sources.
pub open spec fn bare_start(name: Text) -> Text
    decreases name.len(),
{
    if is_monkey(name) {
        bare_start(name.skip(7))
    } else {
        name
    }
}

/// A name without the brackets at its end.
pub open spec fn bare_end(name: Text) -> Text
    decreases name.len(),
{
    if name.len() > 0 && name.last() == ']' { bare_end(name.drop_last()) } else { name }
}

fn has_start(chars: &Vec<char>, from: usize) -> (b: bool)
    requires
        from <= chars@.len(),
    ensures
        b == is_monkey(chars@.skip(from as int)),
{
    let ghost rest = chars@.skip(from as int);
    let ghost word = seq!['m', 'o', 'n', 'k', 'e', 'y', '['];
    if chars.len() - from < 7 {
        return false;
    }
    let b: bool = chars[from] == 'm' && chars[from + 1] == 'o' && chars[from + 2] == 'n'
        && chars[from + 3] == 'k' && chars[from + 4] == 'e' && chars[from + 5] == 'y'
        && chars[from + 6] == '[';
    proof {
        let head = rest.take(7);
        assert(head[0] == chars@[from as int]);
        assert(head[1] == chars@[from + 1]);
        assert(head[2] == chars@[from + 2]);
        assert(head[3] == chars@[from + 3]);
        assert(head[4] == chars@[from + 4]);
        assert(head[5] == chars@[from + 5]);
        assert(head[6] == chars@[from + 6]);
        if b {
            assert(head =~= word);
        } else {
            assert(head != word);
        }
    }
    b
}

/// Whether a name is that of a strategy that acts on a weighted sum.
pub fn is_monkey_name(name: &str) -> (b: bool)
    ensures
        b == is_monkey(name@),
{
    let chars: Vec<char> = chars_of(name);
    assert(chars@.skip(0) =~= chars@);
    has_start(&chars, 0)
}

/// The sources in the name of a strategy.
pub fn short_name(name: &str) -> (s: String)
    ensures
        s@ == bare_end(bare_start(name@)),
{
    let chars: Vec<char> = chars_of(name);
    let mut from: usize = 0;
    assert(chars@.skip(0) =~= chars@);
    while has_start(&chars, from)
        invariant
            from <= chars@.len(),
            bare_start(name@) == bare_start(chars@.skip(from as int)),
        decreases chars@.len() - from,
    {
        assert(chars@.skip(from as int).skip(7) =~= chars@.skip(from + 7));
        from = from + 7;
    }
    let ghost bare = bare_start(name@);
    assert(bare == chars@.skip(from as int));
    let mut to: usize = chars.len();
    assert(chars@.subrange(from as int, to as int) =~= bare);
    while to > from && chars[to - 1] == ']'
        invariant
            from <= to <= chars@.len(),
            bare_end(bare) == bare_end(chars@.subrange(from as int, to as int)),
        decreases to,
    {
        proof {
            let now = chars@.subrange(from as int, to as int);
            assert(now.last() == chars@[to - 1]);
            assert(now.drop_last() =~= chars@.subrange(from as int, to - 1));
        }
        to = to - 1;
    }
    proof {
        let now = chars@.subrange(from as int, to as int);
        if to > from {
            assert(now.last() == chars@[to - 1]);
        }
    }
    let mut s: String = String::new();
    let mut i: usize = from;
    assert(s@ =~= chars@.subrange(from as int, i as int));
    while i < to
        invariant
            from <= i <= to <= chars@.len(),
            s@ == chars@.subrange(from as int, i as int),
        decreases to - i,
    {
        s.push(chars[i]);
        i = i + 1;
        assert(s@ =~= chars@.subrange(from as int, i as int));
    }
    s
}

// Groups

/// The results of one strategy, by their places.
pub struct Group {
    pub name: String,
    pub places: Vec<usize>,
}

/// What groups hold.
pub open spec fn groups_view(g: Seq<Group>) -> Seq<(Text, Seq<usize>)> {
    g.map_values(|g: Group| (g.name@, g.places@))
}

/// The place of the group with a name; the length where there is none.
pub open spec fn group_place(g: Seq<(Text, Seq<usize>)>, name: Text) -> int
    decreases g.len(),
{
    if g.len() == 0 {
        0
    } else if g[0].0 == name {
        0
    } else {
        1 + group_place(g.drop_first(), name)
    }
}

/// Groups with one more place under a name.
pub open spec fn grouped_with(g: Seq<(Text, Seq<usize>)>, name: Text, place: usize) -> Seq<
    (Text, Seq<usize>),
> {
    let i = group_place(g, name);
    if i < g.len() {
        g.update(i, (g[i].0, g[i].1.push(place)))
    } else {
        g.push((name, seq![place]))
    }
}

/// The places of names, grouped by name; groups come in the order of their first names.
pub open spec fn grouped(names: Seq<Text>) -> Seq<(Text, Seq<usize>)>
    decreases names.len(),
{
    if names.len() == 0 {
        seq![]
    } else {
        grouped_with(grouped(names.drop_last()), names.last(), (names.len() - 1) as usize)
    }
}

proof fn lemma_group_place(g: Seq<(Text, Seq<usize>)>, name: Text, i: int)
    requires
        0 <= i <= g.len(),
        forall|k: int| 0 <= k < i ==> (#[trigger] g[k]).0 != name,
        i < g.len() ==> g[i].0 == name,
    ensures
        group_place(g, name) == i,
    decreases g.len(),
{
    if g.len() > 0 && i > 0 {
        let rest = g.drop_first();
        assert forall|k: int| 0 <= k < i - 1 implies (#[trigger] rest[k]).0 != name by {
            assert(rest[k] == g[k + 1]);
        }
        if i < g.len() {
            assert(rest[i - 1] == g[i]);
        }
        assert(g[0].0 != name);
        lemma_group_place(rest, name, i - 1);
    }
}

fn add_place(groups: &mut Vec<Group>, name: &str, place: usize)
    ensures
        groups_view(final(groups)@) == grouped_with(groups_view(old(groups)@), name@, place),
{
    let ghost g = groups_view(groups@);
    let mut i: usize = 0;
    while i < groups.len()
        invariant
            i <= groups@.len(),
            groups@ == old(groups)@,
            g == groups_view(groups@),
            forall|k: int| 0 <= k < i ==> (#[trigger] g[k]).0 != name@,
        decreases groups@.len() - i,
    {
        assert(g[i as int] == (groups@[i as int].name@, groups@[i as int].places@));
        if same_text(groups[i].name.as_str(), name) {
            proof {
                lemma_group_place(g, name@, i as int);
            }
            groups[i].places.push(place);
            assert(groups_view(groups@) =~= grouped_with(g, name@, place));
            return;
        }
        i = i + 1;
    }
    proof {
        lemma_group_place(g, name@, i as int);
    }
    let mut places: Vec<usize> = Vec::new();
    places.push(place);
    assert(places@ =~= seq![place]);
    groups.push(Group { name: name.to_owned(), places });
    assert(groups_view(groups@) =~= grouped_with(g, name@, place));
}

/// What a list of names holds.
pub open spec fn names_view(names: Seq<String>) -> Seq<Text> {
    names.map_values(|s: String| s@)
}

/// Groups the places of names by name.
pub fn group_by_name(names: &Vec<String>) -> (groups: Vec<Group>)
    ensures
        groups_view(groups@) == grouped(names_view(names@)),
{
    let mut groups: Vec<Group> = Vec::new();
    let ghost all = names_view(names@);
    let mut i: usize = 0;
    assert(all.take(0) =~= seq![]);
    assert(groups_view(groups@) =~= grouped(all.take(0)));
    while i < names.len()
        invariant
            i <= names@.len(),
            all == names_view(names@),
            groups_view(groups@) == grouped(all.take(i as int)),
        decreases names@.len() - i,
    {
        proof {
            assert(all.take(i + 1).drop_last() =~= all.take(i as int));
            assert(all.take(i + 1).last() == names@[i as int]@);
        }
        add_place(&mut groups, names[i].as_str(), i);
        i = i + 1;
    }
    assert(all.take(all.len() as int) =~= all);
    groups
}

// Sources

/// How many of some names speak of a source.
pub open spec fn mentions(names: Seq<Text>, label: Text) -> nat
    decreases names.len(),
{
    if names.len() == 0 {
        0
    } else {
        mentions(names.drop_last(), label) + if text::has_infix(names.last(), label) {
            1nat
        } else {
            0nat
        }
    }
}

/// How many of the first names speak of a source.
pub fn count_mentions(names: &Vec<String>, first: usize, label: &str) -> (n: usize)
    ensures
        n == mentions(
            names_view(names@).take(if names@.len() < first { names@.len() as int } else { first as int }),
            label@,
        ),
{
    let end: usize = if names.len() < first { names.len() } else { first };
    let ghost all = names_view(names@);
    let mut n: usize = 0;
    let mut i: usize = 0;
    assert(all.take(0) =~= seq![]);
    while i < end
        invariant
            i <= end <= names@.len(),
            all == names_view(names@),
            n == mentions(all.take(i as int), label@),
            n <= i,
        decreases end - i,
    {
        proof {
            assert(all.take(i + 1).drop_last() =~= all.take(i as int));
            assert(all.take(i + 1).last() == names@[i as int]@);
        }
        if contains_text(names[i].as_str(), label) {
            n = n + 1;
        }
        i = i + 1;
    }
    n
}

/// The word for how much a source tells, by the average of what was earned with it: more than
/// 0.5, more than 0.2, anything, or nothing.
pub open spec fn signal_word(avg: u64) -> Text {
    if float::lt(0x3FE0_0000_0000_0000, avg) {
        "HIGH"@
    } else if float::lt(0x3FC9_9999_9999_999A, avg) {
        "MEDIUM"@
    } else if float::pos(avg) {
        "LOW"@
    } else {
        "NOISE"@
    }
}

/// The word for how much a source tells.
pub fn signal_label(avg: u64) -> (s: &'static str)
    ensures
        s@ == signal_word(avg),
{
    if less(0x3FE0_0000_0000_0000, avg) {
        "HIGH"
    } else if less(0x3FC9_9999_9999_999A, avg) {
        "MEDIUM"
    } else if less(0, avg) {
        "LOW"
    } else {
        "NOISE"
    }
}

/// The word for the outcome of a market.
pub fn outcome_word(up: bool) -> (s: &'static str)
    ensures
        s@ == (if up { "UP"@ } else { "DOWN"@ }),
{
    if up {
        "UP"
    } else {
        "DOWN"
    }
}

/// Every result is in one group, that of its name.
pub proof fn every_result_is_grouped(names: Seq<Text>, place: int)
    requires
        0 <= place < names.len() <= usize::MAX,
    ensures
        exists|i: int|
            0 <= i < grouped(names).len() && (#[trigger] grouped(names)[i]).0 == names[place]
                && grouped(names)[i].1.contains(place as usize),
    decreases names.len(),
{
    let before = grouped(names.drop_last());
    let last = (names.len() - 1) as usize;
    lemma_group_place_found(before, names.last());
    let at = group_place(before, names.last());
    if place == names.len() - 1 {
        assert(grouped(names)[at].1.last() == last);
        assert(grouped(names)[at].1.contains(place as usize));
    } else {
        every_result_is_grouped(names.drop_last(), place);
        let i = choose|i: int|
            0 <= i < before.len() && (#[trigger] before[i]).0 == names.drop_last()[place]
                && before[i].1.contains(place as usize);
        let k = choose|k: int| 0 <= k < before[i].1.len() && before[i].1[k] == place as usize;
        if i == at {
            assert(grouped(names)[i].1[k] == place as usize);
        } else {
            assert(grouped(names)[i] == before[i]);
        }
        assert(grouped(names)[i].1.contains(place as usize));
    }
}

proof fn lemma_group_place_found(g: Seq<(Text, Seq<usize>)>, name: Text)
    ensures
        0 <= group_place(g, name) <= g.len(),
        group_place(g, name) < g.len() ==> g[group_place(g, name)].0 == name,
    decreases g.len(),
{
    if g.len() > 0 {
        lemma_group_place_found(g.drop_first(), name);
    }
}

/// The sources are read out of a name as they stand in it between the brackets.
pub proof fn names_are_shortened_to_their_sources(sources: Text)
    requires
        !is_monkey(sources),
        sources.len() > 0 ==> sources.last() != ']',
    ensures
        ({
            let name = "monkey["@ + sources + "]"@;
            is_monkey(name) && bare_end(bare_start(name)) == sources
        }),
{
    let name = "monkey["@ + sources + "]"@;
    reveal_strlit("monkey[");
    reveal_strlit("]");
    assert("monkey["@ =~= seq!['m', 'o', 'n', 'k', 'e', 'y', '[']);
    assert(name.take(7) =~= "monkey["@);
    let rest = name.skip(7);
    assert(rest =~= sources.push(']'));
    if sources.len() < 7 {
        if is_monkey(rest) {
            assert(rest.take(7)[6] == rest[6]);
            assert(rest[6] == ']' || rest.len() > 7);
        }
    } else if is_monkey(rest) {
        assert(rest.take(7) =~= sources.take(7));
    }
    assert(!is_monkey(rest));
    assert(bare_start(rest) == rest);
    assert(rest.drop_last() =~= sources);
    assert(bare_end(sources) == sources);
}

/// Groups hold the places of their own names alone, in rising order, and no two have the same name.
pub proof fn groups_hold_their_own(names: Seq<Text>, i: int, k: int)
    requires
        names.len() <= usize::MAX,
        0 <= i < grouped(names).len(),
        0 <= k < grouped(names)[i].1.len(),
    ensures
        ({
            let (name, places) = grouped(names)[i];
            &&& places[k] < names.len() && names[places[k] as int] == name
            &&& k > 0 ==> places[k - 1] < places[k]
        }),
        forall|j: int| 0 <= j < i ==> (#[trigger] grouped(names)[j]).0 != grouped(names)[i].0,
    decreases names.len(),
{
    lemma_groups_are_sound(names);
    assert(is_sound(names, grouped(names)[i]));
    let (name, places) = grouped(names)[i];
    if k > 0 {
        assert(places[k - 1] < places[k]);
    }
}

spec fn is_sound(names: Seq<Text>, g: (Text, Seq<usize>)) -> bool {
    (forall|k: int|
        0 <= k < g.1.len() ==> (#[trigger] g.1[k]) < names.len() && names[g.1[k] as int] == g.0) && (
    forall|k: int, l: int| 0 <= k < l < g.1.len() ==> #[trigger] g.1[k] < #[trigger] g.1[l])
}

proof fn lemma_groups_are_sound(names: Seq<Text>)
    requires
        names.len() <= usize::MAX,
    ensures
        forall|i: int| 0 <= i < grouped(names).len() ==> is_sound(names, #[trigger] grouped(names)[i]),
        forall|i: int, j: int|
            0 <= i < j < grouped(names).len() ==> (#[trigger] grouped(names)[i]).0 != (
            #[trigger] grouped(names)[j]).0,
    decreases names.len(),
{
    if names.len() > 0 {
        let fewer = names.drop_last();
        let was = grouped(fewer);
        let now = grouped(names);
        let n = (names.len() - 1) as usize;
        lemma_groups_are_sound(fewer);
        lemma_group_place_found(was, names.last());
        lemma_group_place_first(was, names.last());
        let at = group_place(was, names.last());
        assert forall|i: int| 0 <= i < now.len() implies is_sound(names, #[trigger] now[i]) by {
            if i < was.len() {
                let g = was[i];
                assert(is_sound(fewer, g));
                assert forall|k: int| 0 <= k < now[i].1.len() implies (#[trigger] now[i].1[k])
                    < names.len() && names[now[i].1[k] as int] == now[i].0 by {
                    if k < g.1.len() {
                        assert(now[i].1[k] == g.1[k]);
                        assert(fewer[g.1[k] as int] == names[g.1[k] as int]);
                    }
                }
                assert forall|k: int, l: int| 0 <= k < l < now[i].1.len() implies #[trigger] now[i].1[k]
                    < #[trigger] now[i].1[l] by {
                    assert(now[i].1[k] == g.1[k]);
                    if l < g.1.len() {
                        assert(now[i].1[l] == g.1[l]);
                    }
                }
            }
        }
        assert forall|i: int, j: int| 0 <= i < j < now.len() implies (#[trigger] now[i]).0 != (
        #[trigger] now[j]).0 by {
            assert(now[i].0 == was[i].0);
            if j < was.len() {
                assert(now[j].0 == was[j].0);
            }
        }
    }
}

proof fn lemma_group_place_first(g: Seq<(Text, Seq<usize>)>, name: Text)
    ensures
        forall|k: int| 0 <= k < group_place(g, name) && k < g.len() ==> (#[trigger] g[k]).0 != name,
    decreases g.len(),
{
    if g.len() > 0 && g[0].0 != name {
        let rest = g.drop_first();
        lemma_group_place_first(rest, name);
        assert forall|k: int| 0 <= k < group_place(g, name) && k < g.len() implies (#[trigger] g[k]).0
            != name by {
            if k > 0 {
                assert(rest[k - 1] == g[k]);
            }
        }
    }
}

/// Every name that speaks of a source is counted, and no other.
pub proof fn mentions_are_counted(names: Seq<Text>, label: Text, name: Text)
    ensures
        mentions(names.push(name), label) == mentions(names, label) + (if text::has_infix(
            name,
            label,
        ) {
            1int
        } else {
            0
        }),
        mentions(Seq::empty(), label) == 0,
{
    assert(names.push(name).drop_last() =~= names);
}

/// A source tells more the more was earned with it: much above 0.5, something above 0.2, little
/// above nothing.
pub proof fn signals_are_graded(avg: u64)
    ensures
        float::lt(0x3FE0_0000_0000_0000, avg) <==> signal_word(avg) == "HIGH"@,
        float::lt(0x3FC9_9999_9999_999A, avg) && !float::lt(0x3FE0_0000_0000_0000, avg)
            <==> signal_word(avg) == "MEDIUM"@,
        float::lt(0, avg) && !float::lt(0x3FC9_9999_9999_999A, avg) <==> signal_word(avg)
            == "LOW"@,
        !float::lt(0, avg) <==> signal_word(avg) == "NOISE"@,
{
    reveal_strlit("HIGH");
    reveal_strlit("MEDIUM");
    reveal_strlit("LOW");
    reveal_strlit("NOISE");
    assert("HIGH"@.len() == 4 && "MEDIUM"@.len() == 6 && "LOW"@.len() == 3 && "NOISE"@.len() == 5);
}

} // verus!

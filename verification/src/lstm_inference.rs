//! The statistics that the inputs of the model are scaled by.

use vstd::prelude::*;
use vstd::string::*;

use crate::json;
use crate::json::{Json, JsonNumber, JsonView, NumberView};
use crate::sim::market_data;
use crate::sim::market_data::copy_number;
use crate::text;
use crate::text::{push_u64, Text};

verus! {

/// Layers of the model.
pub const NUM_LAYERS: usize = 2;

/// The size of a layer.
pub const HIDDEN_SIZE: usize = 64;

/// The number of inputs.
pub const NUM_FEATURES: usize = 14;

/// The means and the deviations of the inputs. What is no number is missing.
pub struct FeatureStats {
    pub means: Vec<Option<JsonNumber>>,
    pub stds: Vec<Option<JsonNumber>>,
}

/// What a list of numbers holds.
pub open spec fn numbers_view(v: Seq<Option<JsonNumber>>) -> Seq<Option<NumberView>> {
    v.map_values(|n: Option<JsonNumber>| market_data::opt_number(n))
}

/// The numbers in a list of values.
pub open spec fn numbers_in(items: Seq<JsonView>) -> Seq<Option<NumberView>> {
    items.map_values(|j: JsonView| market_data::plain_number(j))
}

/// What is wrong with statistics: one of the lists is missing, or they are not as long as there
/// are inputs.
pub open spec fn stats_fault(j: JsonView) -> Option<Text> {
    match (json::items_of(json::field(j, "means"@)), json::items_of(json::field(j, "stds"@))) {
        (None, _) => Some("missing means"@),
        (Some(_), None) => Some("missing stds"@),
        (Some(m), Some(s)) => if m.len() != NUM_FEATURES || s.len() != NUM_FEATURES {
            Some(
                "feature stats have wrong dimensions: "@ + text::nat_text(m.len()) + "/"@
                    + text::nat_text(s.len()),
            )
        } else {
            None
        },
    }
}

fn numbers(items: &Vec<Json>) -> (v: Vec<Option<JsonNumber>>)
    ensures
        numbers_view(v@) == numbers_in(json::items_view(items@)),
{
    let ghost all = json::items_view(items@);
    assert(all.len() == items@.len());
    let mut v: Vec<Option<JsonNumber>> = Vec::new();
    let mut i: usize = 0;
    assert(numbers_view(v@) =~= numbers_in(all).take(0));
    while i < items.len()
        invariant
            i <= items@.len(),
            all == json::items_view(items@),
            all.len() == items@.len(),
            numbers_view(v@) == numbers_in(all).take(i as int),
        decreases items@.len() - i,
    {
        let ghost was = v@;
        assert(all[i as int] == items@[i as int]@);
        let n: Option<JsonNumber> = match &items[i] {
            Json::Number(n) => Some(copy_number(n)),
            _ => None,
        };
        v.push(n);
        proof {
            assert(numbers_view(v@) =~= numbers_view(was).push(market_data::opt_number(n)));
            assert(numbers_in(all).take(i + 1) =~= numbers_in(all).take(i as int).push(
                numbers_in(all)[i as int],
            ));
        }
        i = i + 1;
    }
    assert(numbers_in(all).take(all.len() as int) =~= numbers_in(all));
    v
}

/// Reads the statistics of the inputs.
pub fn read_stats(j: &Json) -> (r: Result<FeatureStats, String>)
    ensures
        match (r, stats_fault(j@)) {
            (Ok(s), None) => numbers_view(s.means@) == numbers_in(
                json::items_of(json::field(j@, "means"@))->0,
            ) && numbers_view(s.stds@) == numbers_in(json::items_of(json::field(j@, "stds"@))->0),
            (Err(m), Some(fault)) => m@ == fault,
            _ => false,
        },
{
    let means: &Vec<Json> = match j.array_field("means") {
        Some(v) => v,
        None => {
            return Err("missing means".to_owned());
        },
    };
    let stds: &Vec<Json> = match j.array_field("stds") {
        Some(v) => v,
        None => {
            return Err("missing stds".to_owned());
        },
    };
    assert(json::items_view(means@).len() == means@.len());
    assert(json::items_view(stds@).len() == stds@.len());
    if means.len() != NUM_FEATURES || stds.len() != NUM_FEATURES {
        let mut m: String = "feature stats have wrong dimensions: ".to_owned();
        push_u64(&mut m, means.len() as u64);
        m.append("/");
        push_u64(&mut m, stds.len() as u64);
        return Err(m);
    }
    Ok(FeatureStats { means: numbers(means), stds: numbers(stds) })
}

/// Statistics are sound exactly where both lists are there and have a number for each of the
/// fourteen inputs.
pub proof fn statistics_cover_all_inputs(j: JsonView)
    ensures
        stats_fault(j) is None <==> {
            &&& json::field(j, "means"@) is Array && json::field(j, "stds"@) is Array
            &&& json::field(j, "means"@)->Array_0.len() == 14
            &&& json::field(j, "stds"@)->Array_0.len() == 14
        },
{
}

/// Numbers stay at their places; what is no number is missing.
pub proof fn numbers_stay_in_place(items: Seq<JsonView>, i: int)
    requires
        0 <= i < items.len(),
    ensures
        numbers_in(items).len() == items.len(),
        match items[i] {
            JsonView::Number(n) => numbers_in(items)[i] == Some(n),
            _ => numbers_in(items)[i] is None,
        },
{
}

} // verus!

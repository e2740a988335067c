//! Asset categories for the allocation breakdown.
use crate::config::Investment;
use crate::assoc::Key;
use crate::fixed::{narrow, narrow_i128, trunc_div, Fixed, HUNDRED_RAW};
use crate::metadata::FundMetadata;
use crate::ranking::{lemma_sorted_desc_maps, sort_descending, sorted_desc, Rank, Ranked};
use crate::weighted::fits_wide;
use crate::text::{lowercase_of, str_eq, to_lowercase};
use vstd::prelude::*;
use vstd::string::StringExecFns;

verus! {

/// The broad class of an asset.
#[derive(Clone, Copy, Debug, PartialEq, Eq, Structural, Hash)]
pub enum AssetCategory {
    Equity,
    Debt,
    Hybrid,
    Other,
}

/// The category that a lower-case name stands for.
pub open spec fn category_of(lower: Seq<char>) -> AssetCategory {
    if lower == "equity"@ {
        AssetCategory::Equity
    } else if lower == "debt"@ || lower == "income"@ || lower == "fixed income"@ {
        AssetCategory::Debt
    } else if lower == "hybrid"@ || lower == "balanced"@ || lower == "dynamic"@ {
        AssetCategory::Hybrid
    } else {
        AssetCategory::Other
    }
}

/// The display name of a category.
pub open spec fn category_name(c: AssetCategory) -> Seq<char> {
    match c {
        AssetCategory::Equity => "Equity"@,
        AssetCategory::Debt => "Debt"@,
        AssetCategory::Hybrid => "Hybrid"@,
        AssetCategory::Other => "Other"@,
    }
}

/// The symbol shown beside a category.
pub open spec fn category_symbol(c: AssetCategory) -> Seq<char> {
    match c {
        AssetCategory::Equity => "📈"@,
        AssetCategory::Debt => "📉"@,
        AssetCategory::Hybrid => "📊"@,
        AssetCategory::Other => "❓"@,
    }
}

/// The category under which a holding is listed in the allocation
/// breakdown: stocks are equity, holdings of stated value are debt, and a
/// fund is of the type its metadata names, or `Other` when its metadata
/// could not be fetched.
pub open spec fn allocation_category(
    investment: Investment,
    metadata: Result<FundMetadata, String>,
) -> Seq<char> {
    match investment {
        Investment::Stock(_) => "Equity"@,
        Investment::FixedDeposit(_) => "Debt"@,
        Investment::MutualFund(_) => match metadata {
            Ok(meta) => meta.fund_type@,
            Err(_) => "Other"@,
        },
    }
}

/// The category under which a holding is listed. The metadata result is
/// looked at for funds only.
pub fn holding_category(investment: &Investment, metadata: &Result<FundMetadata, String>) -> (c:
    String)
    ensures
        c@ == allocation_category(*investment, *metadata),
{
    match investment {
        Investment::Stock(_) => String::from_str("Equity"),
        Investment::FixedDeposit(_) => String::from_str("Debt"),
        Investment::MutualFund(_) => match metadata {
            Ok(meta) => meta.fund_type.clone(),
            Err(_) => String::from_str("Other"),
        },
    }
}

/// The share of `value` in `total`, in percent, rounded toward zero: zero
/// when the total is not positive; absent when the share does not fit.
pub open spec fn share_of(value: Fixed, total: Fixed) -> Option<Fixed> {
    if total.raw > 0 {
        narrow(trunc_div(value.raw * HUNDRED_RAW, total.raw as int))
    } else {
        Some(Fixed { raw: 0 })
    }
}

/// The share of `value` in `total`, in percent.
pub fn allocation_share(value: Fixed, total: Fixed) -> (r: Option<Fixed>)
    ensures
        r == share_of(value, total),
{
    if total.raw > 0 {
        value.percent_of(total)
    } else {
        Some(Fixed { raw: 0 })
    }
}

/// One holding of the allocation breakdown: the category it is listed
/// under, its display name, and its converted value.
#[derive(Debug)]
pub struct AllocationEntry {
    pub category: String,
    pub name: String,
    pub value: Fixed,
}

impl Rank for AllocationEntry {
    /// Holdings are ranked by value.
    open spec fn rank(&self) -> int {
        self.value.raw as int
    }
}

impl Ranked for AllocationEntry {
    fn rank_value(&self) -> (r: i128) {
        self.value.raw as i128
    }
}

/// The holdings of one category, with the sum of their values in raw
/// units.
#[derive(Debug)]
pub struct CategoryGroup {
    pub category: String,
    pub holdings: Vec<AllocationEntry>,
    pub total_raw: i128,
}

/// The mathematical content of a `CategoryGroup`.
pub struct CategoryGroupView {
    pub category: Seq<char>,
    pub holdings: Seq<AllocationEntry>,
    pub total: int,
}

impl View for CategoryGroup {
    type V = CategoryGroupView;

    open spec fn view(&self) -> CategoryGroupView {
        CategoryGroupView {
            category: self.category@,
            holdings: self.holdings@,
            total: self.total_raw as int,
        }
    }
}

impl Rank for CategoryGroup {
    /// Categories are ranked by the sum of their holdings' values.
    open spec fn rank(&self) -> int {
        self.total_raw as int
    }
}

impl Ranked for CategoryGroup {
    fn rank_value(&self) -> (r: i128) {
        self.total_raw
    }
}

impl Rank for CategoryGroupView {
    open spec fn rank(&self) -> int {
        self.total
    }
}

impl CategoryGroup {
    /// The sum of the holdings' values; absent when it does not fit.
    pub fn total(&self) -> (r: Option<Fixed>)
        ensures
            r == narrow(self.total_raw as int),
    {
        narrow_i128(self.total_raw)
    }
}

/// The views of a sequence of groups.
pub open spec fn group_views(gs: Seq<CategoryGroup>) -> Seq<CategoryGroupView> {
    gs.map_values(|g: CategoryGroup| g@)
}

/// The group of a single holding.
pub open spec fn group_of(e: AllocationEntry) -> CategoryGroupView {
    CategoryGroupView { category: e.category@, holdings: seq![e], total: e.value.raw as int }
}

/// A group with one more holding.
pub open spec fn with_entry(g: CategoryGroupView, e: AllocationEntry) -> CategoryGroupView {
    CategoryGroupView { holdings: g.holdings.push(e), total: g.total + e.value.raw, ..g }
}

/// The groups with one more holding taken in: it joins the group of its
/// category, or founds a new group behind the others.
pub open spec fn add_entry(groups: Seq<CategoryGroupView>, e: AllocationEntry) -> Seq<
    CategoryGroupView,
>
    decreases groups.len(),
{
    if groups.len() == 0 {
        seq![group_of(e)]
    } else if groups.first().category == e.category@ {
        seq![with_entry(groups.first(), e)] + groups.drop_first()
    } else {
        seq![groups.first()] + add_entry(groups.drop_first(), e)
    }
}

/// The holdings grouped by category: categories in order of first
/// appearance, holdings within a category in order of appearance.
pub open spec fn grouped(entries: Seq<AllocationEntry>) -> Seq<CategoryGroupView>
    decreases entries.len(),
{
    if entries.len() == 0 {
        Seq::empty()
    } else {
        add_entry(grouped(entries.drop_last()), entries.last())
    }
}

/// A group with its holdings sorted by value, highest first.
pub open spec fn ordered_within(g: CategoryGroupView) -> CategoryGroupView {
    CategoryGroupView { holdings: sorted_desc(g.holdings), ..g }
}

/// The allocation breakdown: the holdings grouped by category, the
/// categories sorted by their totals and the holdings of each category by
/// their values, highest first.
pub open spec fn breakdown_spec(entries: Seq<AllocationEntry>) -> Seq<CategoryGroupView> {
    sorted_desc(grouped(entries).map_values(|g: CategoryGroupView| ordered_within(g)))
}

/// Whether the total of each group is within its number of holdings times
/// the range of one value.
pub open spec fn totals_bounded(groups: Seq<CategoryGroupView>) -> bool {
    forall|j: int|
        0 <= j < groups.len() ==> {
            &&& (#[trigger] groups[j]).holdings.len() * i64::MIN <= groups[j].total
            &&& groups[j].total <= groups[j].holdings.len() * i64::MAX
        }
}

/// A holding joins the first group of its category.
proof fn lemma_add_entry_found(groups: Seq<CategoryGroupView>, e: AllocationEntry, i: int)
    requires
        0 <= i < groups.len(),
        groups[i].category == e.category@,
        forall|j: int| 0 <= j < i ==> groups[j].category != e.category@,
    ensures
        add_entry(groups, e) == groups.update(i, with_entry(groups[i], e)),
    decreases groups.len(),
{
    if i == 0 {
        assert(seq![with_entry(groups.first(), e)] + groups.drop_first() =~= groups.update(
            0,
            with_entry(groups[0], e),
        ));
    } else {
        let rest = groups.drop_first();
        assert(rest[i - 1] == groups[i]);
        assert forall|j: int| 0 <= j < i - 1 implies rest[j].category != e.category@ by {
            assert(rest[j] == groups[j + 1]);
        }
        lemma_add_entry_found(rest, e, i - 1);
        assert(seq![groups.first()] + rest.update(i - 1, with_entry(groups[i], e))
            =~= groups.update(i, with_entry(groups[i], e)));
    }
}

/// A holding of a category that has no group founds one behind the
/// others.
proof fn lemma_add_entry_new(groups: Seq<CategoryGroupView>, e: AllocationEntry)
    requires
        forall|j: int| 0 <= j < groups.len() ==> groups[j].category != e.category@,
    ensures
        add_entry(groups, e) == groups.push(group_of(e)),
    decreases groups.len(),
{
    if groups.len() == 0 {
        assert(seq![group_of(e)] =~= groups.push(group_of(e)));
    } else {
        let rest = groups.drop_first();
        assert forall|j: int| 0 <= j < rest.len() implies rest[j].category != e.category@ by {
            assert(rest[j] == groups[j + 1]);
        }
        lemma_add_entry_new(rest, e);
        assert(groups.first() == groups[0]);
        assert(seq![groups.first()] + rest.push(group_of(e)) =~= groups.push(group_of(e)));
    }
}

/// Takes one more holding into the group at index `i`.
fn add_to_group(groups: &mut Vec<CategoryGroup>, i: usize, e: AllocationEntry)
    requires
        i < old(groups).len(),
        old(groups)[i as int].holdings.len() * i64::MIN <= old(groups)[i as int].total_raw,
        old(groups)[i as int].total_raw <= old(groups)[i as int].holdings.len() * i64::MAX,
    ensures
        final(groups).len() == old(groups).len(),
        forall|j: int|
            0 <= j < old(groups).len() && j != i ==> final(groups)[j] == old(groups)[j],
        final(groups)[i as int]@ == with_entry(old(groups)[i as int]@, e),
{
    let group = &mut groups[i];
    group.total_raw = group.total_raw + e.value.raw as i128;
    group.holdings.push(e);
}

/// Groups the holdings by category.
pub fn group_by_category(entries: Vec<AllocationEntry>) -> (groups: Vec<CategoryGroup>)
    ensures
        group_views(groups@) == grouped(entries@),
        totals_bounded(group_views(groups@)),
{
    let ghost all = entries@;
    let mut rest = entries;
    let mut groups: Vec<CategoryGroup> = Vec::new();
    let ghost mut done: int = 0;
    while rest.len() > 0
        invariant
            0 <= done <= all.len(),
            done + rest.len() == all.len(),
            rest@ == all.subrange(done, all.len() as int),
            group_views(groups@) == grouped(all.subrange(0, done)),
            totals_bounded(group_views(groups@)),
        decreases rest.len(),
    {
        let e = rest.remove(0);
        proof {
            assert(e == all[done]);
            assert(all.subrange(0, done + 1).drop_last() =~= all.subrange(0, done));
            assert(all.subrange(0, done + 1).last() == e);
        }
        let ghost before = group_views(groups@);
        let mut i: usize = 0;
        while i < groups.len() && !groups[i].category.same(&e.category)
            invariant
                i <= groups.len(),
                before == group_views(groups@),
                forall|j: int| 0 <= j < i ==> before[j].category != e.category@,
            decreases groups.len() - i,
        {
            assert(before[i as int] == groups@[i as int]@);
            i += 1;
        }
        if i < groups.len() {
            proof {
                assert(before[i as int] == groups@[i as int]@);
                lemma_add_entry_found(before, e, i as int);
            }
            add_to_group(&mut groups, i, e);
            proof {
                assert(group_views(groups@) =~= before.update(
                    i as int,
                    with_entry(before[i as int], e),
                ));
                assert forall|j: int| 0 <= j < groups.len() implies {
                    &&& (#[trigger] group_views(groups@)[j]).holdings.len() * i64::MIN
                        <= group_views(groups@)[j].total
                    &&& group_views(groups@)[j].total <= group_views(
                        groups@,
                    )[j].holdings.len() * i64::MAX
                } by {
                    assert(before[j].holdings.len() * i64::MIN <= before[j].total);
                }
            }
        } else {
            proof {
                lemma_add_entry_new(before, e);
            }
            let total_raw = e.value.raw as i128;
            let category = e.category.clone();
            let mut holdings: Vec<AllocationEntry> = Vec::new();
            holdings.push(e);
            let group = CategoryGroup { category, holdings, total_raw };
            groups.push(group);
            proof {
                assert(group@ == group_of(e));
                assert(group_views(groups@) =~= before.push(group_of(e)));
                assert forall|j: int| 0 <= j < groups.len() implies {
                    &&& (#[trigger] group_views(groups@)[j]).holdings.len() * i64::MIN
                        <= group_views(groups@)[j].total
                    &&& group_views(groups@)[j].total <= group_views(
                        groups@,
                    )[j].holdings.len() * i64::MAX
                } by {
                    if j < before.len() {
                        assert(before[j].holdings.len() * i64::MIN <= before[j].total);
                    }
                }
            }
        }
        proof {
            done = done + 1;
            assert(rest@ =~= all.subrange(done, all.len() as int));
        }
    }
    assert(all.subrange(0, all.len() as int) =~= all);
    groups
}

/// The allocation breakdown of a list of holdings.
pub fn allocation_breakdown(entries: Vec<AllocationEntry>) -> (r: Vec<CategoryGroup>)
    ensures
        group_views(r@) == breakdown_spec(entries@),
{
    let mut groups = group_by_category(entries);
    let ghost by_category = group_views(groups@);
    let mut ordered: Vec<CategoryGroup> = Vec::new();
    while groups.len() > 0
        invariant
            ordered.len() + groups.len() == by_category.len(),
            group_views(groups@) == by_category.subrange(
                ordered.len() as int,
                by_category.len() as int,
            ),
            group_views(ordered@) == by_category.subrange(0, ordered.len() as int).map_values(
                |g: CategoryGroupView| ordered_within(g),
            ),
        decreases groups.len(),
    {
        let ghost done = ordered.len() as int;
        let ghost views_before = group_views(ordered@);
        let ghost rest_before = group_views(groups@);
        let ghost groups_before = groups@;
        let group = groups.remove(0);
        proof {
            assert(group@ == rest_before[0]);
            assert(group@ == by_category[done]);
            assert forall|j: int| 0 <= j < groups.len() implies #[trigger] group_views(
                groups@,
            )[j] == by_category[done + 1 + j] by {
                assert(groups@[j] == groups_before[j + 1]);
                assert(rest_before[j + 1] == groups_before[j + 1]@);
            }
        }
        let CategoryGroup { category, holdings, total_raw } = group;
        let sorted = sort_descending(holdings);
        let finished = CategoryGroup { category, holdings: sorted, total_raw };
        ordered.push(finished);
        proof {
            assert(finished@ == ordered_within(by_category[done]));
            assert(group_views(ordered@) =~= views_before.push(finished@));
            assert(group_views(ordered@) =~= by_category.subrange(0, done + 1).map_values(
                |g: CategoryGroupView| ordered_within(g),
            ));
            assert(group_views(groups@) =~= by_category.subrange(
                done + 1,
                by_category.len() as int,
            ));
        }
    }
    proof {
        assert(by_category.subrange(0, by_category.len() as int) =~= by_category);
        lemma_sorted_desc_maps(ordered@, |g: CategoryGroup| g@);
    }
    sort_descending(ordered)
}

/// The sum of the totals of the groups; absent once it leaves the
/// accumulator.
pub open spec fn groups_sum(groups: Seq<CategoryGroupView>) -> Option<int>
    decreases groups.len(),
{
    if groups.len() == 0 {
        Some(0)
    } else {
        match groups_sum(groups.drop_last()) {
            Some(acc) => if fits_wide(acc + groups.last().total) {
                Some(acc + groups.last().total)
            } else {
                None
            },
            None => None,
        }
    }
}

/// The total that shares are taken of: the portfolio total if there is
/// one, else the sum of the listed values, if it fits.
pub open spec fn allocation_total_spec(
    total_value: Option<Fixed>,
    groups: Seq<CategoryGroupView>,
) -> Option<Fixed> {
    match total_value {
        Some(t) => Some(t),
        None => match groups_sum(groups) {
            Some(v) => narrow(v),
            None => None,
        },
    }
}

/// Once the sum of the totals is absent it stays absent as groups are
/// added.
proof fn lemma_groups_sum_stays_absent(groups: Seq<CategoryGroupView>, k: int)
    requires
        0 <= k <= groups.len(),
        groups_sum(groups.subrange(0, k)).is_none(),
    ensures
        groups_sum(groups).is_none(),
    decreases groups.len() - k,
{
    if k < groups.len() {
        assert(groups.subrange(0, k + 1).drop_last() =~= groups.subrange(0, k));
        lemma_groups_sum_stays_absent(groups, k + 1);
    } else {
        assert(groups.subrange(0, k) =~= groups);
    }
}

/// The total that shares are taken of.
pub fn allocation_total(total_value: Option<Fixed>, groups: &Vec<CategoryGroup>) -> (r: Option<
    Fixed,
>)
    ensures
        r == allocation_total_spec(total_value, group_views(groups@)),
{
    match total_value {
        Some(t) => {
            return Some(t);
        },
        None => {},
    }
    let ghost all = group_views(groups@);
    let mut sum: i128 = 0;
    let mut i: usize = 0;
    while i < groups.len()
        invariant
            total_value.is_none(),
            all == group_views(groups@),
            i <= groups.len(),
            groups_sum(all.subrange(0, i as int)) == Some(sum as int),
            fits_wide(sum as int),
        decreases groups.len() - i,
    {
        proof {
            assert(all.subrange(0, i + 1).drop_last() =~= all.subrange(0, i as int));
            assert(all.subrange(0, i + 1).last() == groups@[i as int]@);
        }
        let next = match sum.checked_add(groups[i].total_raw) {
            Some(next) => next,
            None => {
                proof {
                    lemma_groups_sum_stays_absent(all, i + 1);
                }
                return None;
            },
        };
        if next == i128::MIN {
            proof {
                lemma_groups_sum_stays_absent(all, i + 1);
            }
            return None;
        }
        sum = next;
        i += 1;
    }
    assert(all.subrange(0, groups.len() as int) =~= all);
    narrow_i128(sum)
}

impl AssetCategory {
    /// The category that a lower-case name stands for; a name that stands
    /// for none is `Other`.
    pub fn from_lowercase(lower: &str) -> (c: AssetCategory)
        ensures
            c == category_of(lower@),
    {
        if str_eq(lower, "equity") {
            AssetCategory::Equity
        } else if str_eq(lower, "debt") || str_eq(lower, "income") || str_eq(
            lower,
            "fixed income",
        ) {
            AssetCategory::Debt
        } else if str_eq(lower, "hybrid") || str_eq(lower, "balanced") || str_eq(
            lower,
            "dynamic",
        ) {
            AssetCategory::Hybrid
        } else {
            AssetCategory::Other
        }
    }

    /// The category that a name stands for, in whatever case it is written.
    pub fn from_name(s: &str) -> (c: AssetCategory)
        ensures
            c == category_of(lowercase_of(s@)),
    {
        let lower = to_lowercase(s);
        AssetCategory::from_lowercase(lower.as_str())
    }

    /// Display name and symbol of the category.
    pub fn display_info(&self) -> (info: (&'static str, &'static str))
        ensures
            info.0@ == category_name(*self),
            info.1@ == category_symbol(*self),
    {
        match self {
            AssetCategory::Equity => ("Equity", "📈"),
            AssetCategory::Debt => ("Debt", "📉"),
            AssetCategory::Hybrid => ("Hybrid", "📊"),
            AssetCategory::Other => ("Other", "❓"),
        }
    }
}

impl From<&str> for AssetCategory {
    fn from(s: &str) -> (c: AssetCategory) {
        AssetCategory::from_name(s)
    }
}

impl vstd::std_specs::convert::FromSpecImpl<&str> for AssetCategory {
    open spec fn obeys_from_spec() -> bool {
        true
    }

    open spec fn from_spec(s: &str) -> AssetCategory {
        category_of(lowercase_of(s@))
    }
}

} // verus!

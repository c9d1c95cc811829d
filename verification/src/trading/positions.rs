//! Positions of the account.

use crate::decimal::{decimal_of_text, product, product_fits, sum, sum_fits, Decimal};
use crate::keyed::{find, lemma_found, lemma_not_found};
use crate::models::Position;
use crate::text::{opt_text, same_text};
use vstd::pervasive::unreached;
use vstd::prelude::*;
use vstd::string::*;

pub mod laws;

verus! {

/// A position as the data interface reports it, its numbers as texts.
#[derive(Debug)]
pub struct RawPosition {
    pub condition_id: Option<String>,
    pub size: Option<String>,
    pub avg_price: Option<String>,
    pub outcome: Option<String>,
}

pub struct RawPositionView {
    pub condition_id: Option<Seq<char>>,
    pub size: Option<Seq<char>>,
    pub avg_price: Option<Seq<char>>,
    pub outcome: Option<Seq<char>>,
}

impl View for RawPosition {
    type V = RawPositionView;

    open spec fn view(&self) -> RawPositionView {
        RawPositionView {
            condition_id: opt_text(self.condition_id),
            size: opt_text(self.size),
            avg_price: opt_text(self.avg_price),
            outcome: opt_text(self.outcome),
        }
    }
}

pub struct PositionView {
    pub condition_id: Seq<char>,
    pub yes_size: int,
    pub no_size: int,
    pub avg_yes_price: int,
    pub avg_no_price: int,
}

impl View for Position {
    type V = PositionView;

    open spec fn view(&self) -> PositionView {
        PositionView {
            condition_id: self.condition_id@,
            yes_size: self.yes_size@,
            no_size: self.no_size@,
            avg_yes_price: self.avg_yes_price@,
            avg_no_price: self.avg_no_price@,
        }
    }
}

/// The number that a text writes, zero where it writes none.
pub open spec fn number_or_zero(text: Option<Seq<char>>) -> int {
    match text {
        Some(t) => match decimal_of_text(t) {
            Some(v) => v,
            None => 0,
        },
        None => 0,
    }
}

pub open spec fn names_yes(outcome: Option<Seq<char>>) -> bool {
    outcome == Some("Yes"@) || outcome == Some("YES"@)
}

pub open spec fn names_no(outcome: Option<Seq<char>>) -> bool {
    !names_yes(outcome) && (outcome == Some("No"@) || outcome == Some("NO"@))
}

pub open spec fn yes_of(id: Seq<char>) -> spec_fn(RawPositionView) -> bool {
    |r: RawPositionView| r.condition_id == Some(id) && names_yes(r.outcome)
}

pub open spec fn no_of(id: Seq<char>) -> spec_fn(RawPositionView) -> bool {
    |r: RawPositionView| r.condition_id == Some(id) && names_no(r.outcome)
}

/// The last report that satisfies `p`.
pub open spec fn last_report(
    s: Seq<RawPositionView>,
    p: spec_fn(RawPositionView) -> bool,
) -> Option<RawPositionView>
    decreases s.len(),
{
    if s.len() == 0 {
        None
    } else if p(s.last()) {
        Some(s.last())
    } else {
        last_report(s.drop_last(), p)
    }
}

pub open spec fn reported_size(r: Option<RawPositionView>) -> int {
    match r {
        Some(r) => number_or_zero(r.size),
        None => 0,
    }
}

pub open spec fn reported_price(r: Option<RawPositionView>) -> int {
    match r {
        Some(r) => number_or_zero(r.avg_price),
        None => 0,
    }
}

/// The position that the reports give for a market: each side as it was reported last.
pub open spec fn reported(s: Seq<RawPositionView>, id: Seq<char>) -> PositionView {
    PositionView {
        condition_id: id,
        yes_size: reported_size(last_report(s, yes_of(id))),
        no_size: reported_size(last_report(s, no_of(id))),
        avg_yes_price: reported_price(last_report(s, yes_of(id))),
        avg_no_price: reported_price(last_report(s, no_of(id))),
    }
}

/// Some report is of that market.
pub open spec fn mentions(s: Seq<RawPositionView>, id: Seq<char>) -> bool {
    exists|i: int| 0 <= i < s.len() && (#[trigger] s[i]).condition_id == Some(id)
}

pub open spec fn position_views(v: Seq<Position>) -> Seq<PositionView> {
    v.map_values(|p: Position| p@)
}

pub open spec fn raw_views(v: Seq<RawPosition>) -> Seq<RawPositionView> {
    v.map_values(|p: RawPosition| p@)
}

/// One position for each market that is mentioned, and no other, as the reports give it.
pub open spec fn merges_reports(p: Seq<PositionView>, s: Seq<RawPositionView>) -> bool {
    &&& forall|i: int, j: int|
        0 <= i < j < p.len() ==> (#[trigger] p[i]).condition_id != (#[trigger] p[j]).condition_id
    &&& forall|i: int|
        0 <= i < p.len() ==> mentions(s, (#[trigger] p[i]).condition_id) && p[i] == reported(
            s,
            p[i].condition_id,
        )
    &&& forall|id: Seq<char>| #[trigger]
        mentions(s, id) ==> exists|i: int|
            0 <= i < p.len() && (#[trigger] p[i]).condition_id == id
}

pub open spec fn position_with_id(id: Seq<char>) -> spec_fn(PositionView) -> bool {
    |p: PositionView| p.condition_id == id
}

/// The positions with one of them replaced, or added.
pub open spec fn with_position(s: Seq<PositionView>, p: PositionView) -> Seq<PositionView> {
    match find(s, position_with_id(p.condition_id)) {
        Some(i) => s.update(i, p),
        None => s.push(p),
    }
}

/// The position in a market holds so many shares of an outcome.
pub open spec fn in_stock(
    s: Seq<PositionView>,
    condition_id: Seq<char>,
    outcome: Seq<char>,
    size: int,
) -> bool {
    match find(s, position_with_id(condition_id)) {
        Some(i) => if outcome == "YES"@ {
            s[i].yes_size >= size
        } else if outcome == "NO"@ {
            s[i].no_size >= size
        } else {
            false
        },
        None => false,
    }
}

/// The USDC locked in positions: size times average price, added up.
pub open spec fn position_cost(s: Seq<PositionView>) -> int
    decreases s.len(),
{
    if s.len() == 0 {
        0
    } else {
        let p = s.last();
        sum(
            sum(position_cost(s.drop_last()), product(p.yes_size, p.avg_yes_price)),
            product(p.no_size, p.avg_no_price),
        )
    }
}

/// Nothing in the cost of the positions is too large for a decimal.
pub open spec fn position_cost_fits(s: Seq<PositionView>) -> bool
    decreases s.len(),
{
    s.len() == 0 || {
        let p = s.last();
        let before = position_cost(s.drop_last());
        let yes = product(p.yes_size, p.avg_yes_price);
        let no = product(p.no_size, p.avg_no_price);
        &&& position_cost_fits(s.drop_last())
        &&& product_fits(p.yes_size, p.avg_yes_price)
        &&& sum_fits(before, yes)
        &&& product_fits(p.no_size, p.avg_no_price)
        &&& sum_fits(sum(before, yes), no)
    }
}

/// A cost that fits also fits as far as it was added up.
proof fn lemma_cost_fits_so_far(s: Seq<PositionView>, i: int)
    requires
        0 <= i <= s.len(),
        position_cost_fits(s),
    ensures
        position_cost_fits(s.take(i)),
    decreases s.len(),
{
    if i < s.len() {
        lemma_cost_fits_so_far(s.drop_last(), i);
        assert(s.drop_last().take(i) =~= s.take(i));
    } else {
        assert(s.take(i) =~= s);
    }
}

fn number_of(text: &Option<String>) -> (r: Decimal)
    ensures
        r@ == number_or_zero(opt_text(*text)),
{
    match text {
        Some(t) => match Decimal::parse(t.as_str()) {
            Some(v) => v,
            None => Decimal::zero(),
        },
        None => Decimal::zero(),
    }
}

/// Manages the positions of the account.
#[derive(Debug)]
pub struct PositionManager {
    pub positions: Vec<Position>,
}

impl PositionManager {
    pub fn new() -> (r: PositionManager)
        ensures
            r.positions@.len() == 0,
    {
        PositionManager { positions: Vec::new() }
    }

    fn position_of(&self, condition_id: &str) -> (r: Option<usize>)
        ensures
            match r {
                Some(i) => i < self.positions@.len() && find(
                    position_views(self.positions@),
                    position_with_id(condition_id@),
                ) == Some(i as int),
                None => find(
                    position_views(self.positions@),
                    position_with_id(condition_id@),
                ) is None,
            },
    {
        let ghost all = position_views(self.positions@);
        let mut i: usize = 0;
        while i < self.positions.len()
            invariant
                i <= self.positions@.len(),
                all == position_views(self.positions@),
                forall|j: int| 0 <= j < i ==> !position_with_id(condition_id@)(#[trigger] all[j]),
            decreases self.positions@.len() - i,
        {
            assert(all[i as int] == self.positions@[i as int]@);
            if same_text(self.positions[i].condition_id.as_str(), condition_id) {
                proof {
                    lemma_found(all, position_with_id(condition_id@), i as int);
                }
                return Some(i);
            }
            i += 1;
        }
        proof {
            lemma_not_found(all, position_with_id(condition_id@));
        }
        None
    }

    /// Replace the positions by those that the data interface reports: YES and NO sides are merged
    /// by market.
    pub fn sync_positions(&mut self, raw: &Vec<RawPosition>)
        ensures
            merges_reports(position_views(final(self).positions@), raw_views(raw@)),
    {
        let ghost reports = raw_views(raw@);
        let mut merged = PositionManager::new();
        let mut n: usize = 0;
        assert(merges_reports(position_views(merged.positions@), reports.take(0)));
        while n < raw.len()
            invariant
                n <= raw.len(),
                reports == raw_views(raw@),
                merges_reports(position_views(merged.positions@), reports.take(n as int)),
            decreases raw.len() - n,
        {
            let ghost before = position_views(merged.positions@);
            let ghost seen = reports.take(n as int);
            let ghost now = reports.take(n + 1);
            assert(now.drop_last() =~= seen);
            assert(now.last() == raw@[n as int]@);
            assert(now =~= seen.push(raw@[n as int]@));
            match &raw[n].condition_id {
                Some(id) => {
                    let size = number_of(&raw[n].size);
                    let avg_price = number_of(&raw[n].avg_price);
                    let mut position = match merged.position_of(id.as_str()) {
                        Some(i) => merged.positions[i].clone(),
                        None => Position::new(id.clone()),
                    };
                    proof {
                        lemma_find_position(before, id@);
                        if find(before, position_with_id(id@)) is None {
                            lemma_unmentioned(before, seen, id@);
                        }
                        assert(position@ == reported(seen, id@));
                    }
                    match &raw[n].outcome {
                        Some(outcome) => if same_text(outcome.as_str(), "Yes") || same_text(
                            outcome.as_str(),
                            "YES",
                        ) {
                            position.yes_size = size;
                            position.avg_yes_price = avg_price;
                        } else if same_text(outcome.as_str(), "No") || same_text(
                            outcome.as_str(),
                            "NO",
                        ) {
                            position.no_size = size;
                            position.avg_no_price = avg_price;
                        },
                        None => {},
                    }
                    assert(position@ == reported(now, id@));
                    let ghost view = position@;
                    merged.update_position(position);
                    proof {
                        lemma_report_merged(before, seen, raw@[n as int]@, id@, view);
                    }
                },
                None => {
                    proof {
                        lemma_report_skipped(before, seen, raw@[n as int]@);
                    }
                },
            }
            n += 1;
        }
        assert(reports.take(n as int) =~= reports);
        self.positions = merged.positions;
    }

    /// Get position for a specific market.
    pub fn get_position(&self, condition_id: &str) -> (r: Option<Position>)
        ensures
            match (r, find(position_views(self.positions@), position_with_id(condition_id@))) {
                (Some(p), Some(i)) => p@ == position_views(self.positions@)[i],
                (None, None) => true,
                _ => false,
            },
    {
        match self.position_of(condition_id) {
            Some(i) => Some(self.positions[i].clone()),
            None => None,
        }
    }

    /// Update a single position (e.g., after a fill event).
    pub fn update_position(&mut self, updated: Position)
        ensures
            position_views(final(self).positions@) == with_position(
                position_views(old(self).positions@),
                updated@,
            ),
    {
        let ghost before = position_views(self.positions@);
        match self.position_of(updated.condition_id.as_str()) {
            Some(i) => {
                self.positions.set(i, updated);
                assert(position_views(self.positions@) =~= before.update(i as int, updated@));
            },
            None => {
                self.positions.push(updated);
                assert(position_views(self.positions@) =~= before.push(updated@));
            },
        }
    }

    /// The USDC locked in positions, unless that is too much.
    pub(crate) fn checked_position_cost(&self) -> (r: Option<Decimal>)
        ensures
            r is Some == position_cost_fits(position_views(self.positions@)),
            r matches Some(cost) ==> cost@ == position_cost(position_views(self.positions@)),
    {
        let ghost all = position_views(self.positions@);
        let mut total = Decimal::zero();
        let mut i: usize = 0;
        assert(all.take(0).len() == 0);
        while i < self.positions.len()
            invariant
                i <= self.positions.len(),
                all == position_views(self.positions@),
                total@ == position_cost(all.take(i as int)),
                position_cost_fits(all.take(i as int)),
            decreases self.positions.len() - i,
        {
            proof {
                assert(all[i as int] == self.positions@[i as int]@);
                assert(all.take(i + 1).drop_last() =~= all.take(i as int));
                assert(all.take(i + 1).last() == all[i as int]);
                if position_cost_fits(all) {
                    lemma_cost_fits_so_far(all, i + 1);
                }
            }
            let position = &self.positions[i];
            let yes = position.yes_size.checked_times(position.avg_yes_price)?;
            let no = position.no_size.checked_times(position.avg_no_price)?;
            total = total.checked_plus(yes)?.checked_plus(no)?;
            i = i + 1;
        }
        assert(all.take(i as int) =~= all);
        Some(total)
    }

    /// Total USDC locked in held positions (yes_size * avg_price + no_size * avg_price).
    /// This capital is committed and unavailable for new BUY orders.
    pub fn total_position_cost(&self) -> (r: Decimal)
        requires
            position_cost_fits(position_views(self.positions@)),
        ensures
            r@ == position_cost(position_views(self.positions@)),
    {
        match self.checked_position_cost() {
            Some(cost) => cost,
            None => unreached(),
        }
    }

    /// The USDC locked in positions, unless that is too much.
    pub fn try_total_position_cost(&self) -> (r: Option<Decimal>)
        ensures
            r is Some == position_cost_fits(position_views(self.positions@)),
            r matches Some(cost) ==> cost@ == position_cost(position_views(self.positions@)),
    {
        if self.checked_position_cost().is_some() {
            Some(self.total_position_cost())
        } else {
            None
        }
    }

    /// Check if we have sufficient inventory for a sell order.
    pub fn has_inventory(&self, condition_id: &str, outcome: &str, size: Decimal) -> (r: bool)
        ensures
            r == in_stock(position_views(self.positions@), condition_id@, outcome@, size@),
    {
        match self.position_of(condition_id) {
            Some(i) => {
                let position = &self.positions[i];
                assert(position_views(self.positions@)[i as int] == position@);
                if same_text(outcome, "YES") {
                    position.has_yes_inventory(size)
                } else if same_text(outcome, "NO") {
                    position.has_no_inventory(size)
                } else {
                    false
                }
            },
            None => false,
        }
    }
}

proof fn lemma_find_position(p: Seq<PositionView>, id: Seq<char>)
    ensures
        match find(p, position_with_id(id)) {
            Some(i) => 0 <= i < p.len() && p[i].condition_id == id,
            None => forall|j: int| 0 <= j < p.len() ==> (#[trigger] p[j]).condition_id != id,
        },
{
    crate::keyed::lemma_find(p, position_with_id(id));
    if find(p, position_with_id(id)) is None {
        assert forall|j: int| 0 <= j < p.len() implies (#[trigger] p[j]).condition_id != id by {
            assert(!position_with_id(id)(p[j]));
        }
    }
}

/// A market that is not mentioned has the position without shares.
proof fn lemma_nothing_reported(s: Seq<RawPositionView>, id: Seq<char>)
    requires
        !mentions(s, id),
    ensures
        last_report(s, yes_of(id)) is None,
        last_report(s, no_of(id)) is None,
    decreases s.len(),
{
    if s.len() > 0 {
        let t = s.drop_last();
        assert(s.last() == s[s.len() - 1]);
        assert(!mentions(t, id)) by {
            if mentions(t, id) {
                let i = choose|i: int| 0 <= i < t.len() && (#[trigger] t[i]).condition_id == Some(
                    id,
                );
                assert(s[i].condition_id == Some(id));
            }
        }
        lemma_nothing_reported(t, id);
    }
}

proof fn lemma_unmentioned(p: Seq<PositionView>, s: Seq<RawPositionView>, id: Seq<char>)
    requires
        merges_reports(p, s),
        forall|j: int| 0 <= j < p.len() ==> (#[trigger] p[j]).condition_id != id,
    ensures
        !mentions(s, id),
        last_report(s, yes_of(id)) is None,
        last_report(s, no_of(id)) is None,
{
    lemma_nothing_reported(s, id);
}

/// A report changes the position of its own market only.
proof fn lemma_reports_apart(s: Seq<RawPositionView>, r: RawPositionView, id: Seq<char>)
    requires
        r.condition_id != Some(id),
    ensures
        reported(s.push(r), id) == reported(s, id),
        mentions(s.push(r), id) == mentions(s, id),
{
    let t = s.push(r);
    assert(t.drop_last() =~= s);
    assert(t.last() == r);
    if mentions(t, id) {
        let i = choose|i: int| 0 <= i < t.len() && (#[trigger] t[i]).condition_id == Some(id);
        assert(s[i].condition_id == Some(id));
    }
    if mentions(s, id) {
        let i = choose|i: int| 0 <= i < s.len() && (#[trigger] s[i]).condition_id == Some(id);
        assert(t[i].condition_id == Some(id));
    }
}

proof fn lemma_report_skipped(p: Seq<PositionView>, s: Seq<RawPositionView>, r: RawPositionView)
    requires
        merges_reports(p, s),
        r.condition_id is None,
    ensures
        merges_reports(p, s.push(r)),
{
    let t = s.push(r);
    assert forall|i: int| 0 <= i < p.len() implies mentions(t, (#[trigger] p[i]).condition_id)
        && p[i] == reported(t, p[i].condition_id) by {
        lemma_reports_apart(s, r, p[i].condition_id);
    }
    assert forall|id: Seq<char>| #[trigger] mentions(t, id) implies exists|i: int|
        0 <= i < p.len() && (#[trigger] p[i]).condition_id == id by {
        lemma_reports_apart(s, r, id);
    }
}

proof fn lemma_report_merged(
    p: Seq<PositionView>,
    s: Seq<RawPositionView>,
    r: RawPositionView,
    id: Seq<char>,
    item: PositionView,
)
    requires
        merges_reports(p, s),
        r.condition_id == Some(id),
        item == reported(s.push(r), id),
    ensures
        merges_reports(with_position(p, item), s.push(r)),
{
    let t = s.push(r);
    let q = with_position(p, item);
    lemma_find_position(p, id);
    assert(t[s.len() as int] == r);
    assert(mentions(t, id));
    let at = match find(p, position_with_id(id)) {
        Some(i) => i,
        None => p.len() as int,
    };
    assert(q[at] == item);
    assert forall|i: int, j: int| 0 <= i < j < q.len() implies (#[trigger] q[i]).condition_id != (
    #[trigger] q[j]).condition_id by {
        if i != at {
            assert(q[i] == p[i]);
        }
        if j != at {
            assert(q[j] == p[j]);
        }
    }
    assert forall|i: int| 0 <= i < q.len() implies mentions(t, (#[trigger] q[i]).condition_id)
        && q[i] == reported(t, q[i].condition_id) by {
        if i != at {
            assert(q[i] == p[i]);
            if at < p.len() {
                assert(p[at].condition_id == id);
                if i < at {
                    assert(p[i].condition_id != p[at].condition_id);
                } else {
                    assert(p[at].condition_id != p[i].condition_id);
                }
            }
            assert(p[i].condition_id != id);
            lemma_reports_apart(s, r, p[i].condition_id);
        }
    }
    assert forall|other: Seq<char>| #[trigger] mentions(t, other) implies exists|i: int|
        0 <= i < q.len() && (#[trigger] q[i]).condition_id == other by {
        if other == id {
            assert(q[at].condition_id == other);
        } else {
            lemma_reports_apart(s, r, other);
            let i = choose|i: int| 0 <= i < p.len() && (#[trigger] p[i]).condition_id == other;
            assert(q[i] == p[i]);
        }
    }
}

/// A position that was set is the one that is read, and no other changes.
pub proof fn law_updated_position_is_read(s: Seq<PositionView>, p: PositionView, id: Seq<char>)
    ensures
        ({
            let t = with_position(s, p);
            match find(t, position_with_id(id)) {
                Some(i) => if id == p.condition_id {
                    t[i] == p
                } else {
                    find(s, position_with_id(id)) == Some(i) && t[i] == s[i]
                },
                None => id != p.condition_id && find(s, position_with_id(id)) is None,
            }
        }),
{
    let t = with_position(s, p);
    crate::keyed::lemma_find(s, position_with_id(p.condition_id));
    crate::keyed::lemma_find(s, position_with_id(id));
    crate::keyed::lemma_find(t, position_with_id(id));
    if id != p.condition_id {
        match find(s, position_with_id(id)) {
            Some(i) => {
                assert forall|j: int| 0 <= j < i implies !position_with_id(id)(#[trigger] t[j]) by {
                    assert(!position_with_id(id)(s[j]));
                }
                assert(t[i] == s[i]);
                lemma_found(t, position_with_id(id), i);
            },
            None => {
                assert forall|j: int| 0 <= j < t.len() implies !position_with_id(id)(
                    #[trigger] t[j],
                ) by {
                    if j < s.len() {
                        assert(!position_with_id(id)(s[j]));
                    }
                }
                lemma_not_found(t, position_with_id(id));
            },
        }
    } else {
        match find(s, position_with_id(id)) {
            Some(i) => {
                assert forall|j: int| 0 <= j < i implies !position_with_id(id)(#[trigger] t[j]) by {
                    assert(!position_with_id(id)(s[j]));
                }
                lemma_found(t, position_with_id(id), i);
            },
            None => {
                assert forall|j: int| 0 <= j < s.len() implies !position_with_id(id)(
                    #[trigger] t[j],
                ) by {
                    assert(!position_with_id(id)(s[j]));
                }
                lemma_found(t, position_with_id(id), s.len() as int);
            },
        }
    }
}

} // verus!

//! The schedule source: address resolution and the decisions that turn a
//! fetched calendar response into pickup entries.
//!
//! The network calls themselves live in the surrounding binary; it hands the
//! outcome over as plain values (the response status, the decoded stands, the
//! lookup matches) and every decision about them is made and verified here.

pub mod settings;

use vstd::prelude::*;

use crate::dates::{
    lemma_date_order_total, parse_day_month, resolve_day_month, spec_digit_val,
    spec_inferred_year, spec_is_digit, Date,
};
use crate::text::{dec_digits, push_decimal};
use settings::{AddressId, TraditionalAddress};

verus! {

/// One pickup event: a waste fraction and the date it is due.
#[derive(Debug)]
pub struct Container {
    pub name: String,
    pub date: Date,
}

impl Container {
    pub fn new(name: String, date: Date) -> (r: Self)
        ensures
            r.name == name && r.date == date,
    {
        Container { name, date }
    }
}

impl Clone for Container {
    fn clone(&self) -> (r: Self)
        ensures
            r == *self,
    {
        Container { name: self.name.clone(), date: self.date }
    }
}

impl PartialEq for Container {
    fn eq(&self, other: &Self) -> (r: bool) {
        self.name == other.name && self.date.year == other.date.year && self.date.month
            == other.date.month && self.date.day == other.date.day
    }
}

impl vstd::std_specs::cmp::PartialEqSpecImpl for Container {
    open spec fn obeys_eq_spec() -> bool {
        true
    }

    open spec fn eq_spec(&self, other: &Self) -> bool {
        self.name@ == other.name@ && self.date == other.date
    }
}

/// Why a pass could not acquire a schedule.  Everything here aborts the whole
/// pass; no publication is attempted after it.
#[derive(Debug)]
pub enum FetchError {
    /// Transport-level failure: the endpoint could not be reached at all.
    Connect(String),
    /// The endpoint answered outside the success range; carries the status.
    RemoteStatus(u16),
    /// The response body could not be decoded into the expected shape.
    Parse(String),
    /// A well-formed response that carries no schedule at all.
    NoData,
    /// Address resolution returned no match, or more than one.
    AddressNotFound,
}

/// The message [`FetchError::describe`] renders.
pub open spec fn spec_fetch_error_message(e: FetchError) -> Seq<char> {
    match e {
        FetchError::Connect(detail) => "Error connecting: "@ + detail@,
        FetchError::RemoteStatus(status) => "Unexpected status code: "@ + dec_digits(status as int),
        FetchError::Parse(detail) => "Error reading response content: "@ + detail@,
        FetchError::NoData => "No data found"@,
        FetchError::AddressNotFound => "Address not found"@,
    }
}

impl FetchError {
    /// A human-readable account of the failure.
    pub fn describe(&self) -> (r: String)
        ensures
            r@ == spec_fetch_error_message(*self),
    {
        match self {
            FetchError::Connect(detail) => {
                let mut s = String::from_str("Error connecting: ");
                s.append(detail.as_str());
                s
            },
            FetchError::RemoteStatus(status) => {
                let mut s = String::from_str("Unexpected status code: ");
                push_decimal(&mut s, *status as u32);
                s
            },
            FetchError::Parse(detail) => {
                let mut s = String::from_str("Error reading response content: ");
                s.append(detail.as_str());
                s
            },
            FetchError::NoData => String::from_str("No data found"),
            FetchError::AddressNotFound => String::from_str("Address not found"),
        }
    }
}

/// One planned load of a stand: a date and the fractions collected on it.
#[derive(Debug)]
pub struct PlannedLoad {
    pub date: Date,
    pub fractions: Vec<String>,
}

/// One stand of the calendar response, already decoded into plain values.
#[derive(Debug)]
pub struct StandData {
    pub stand_id: String,
    pub stand_name: String,
    pub planned_loads: Vec<PlannedLoad>,
}

/// The free-text query that resolves an address: street, house number,
/// postal code and city, separated by single spaces.
pub fn lookup_query(address: &TraditionalAddress) -> (r: String)
    ensures
        r@ == address.street_name@ + " "@ + address.street_no@ + " "@ + address.postal_code@ + " "@
            + address.city@,
{
    let mut s = String::from_str(address.street_name.as_str());
    s.append(" ");
    s.append(address.street_no.as_str());
    s.append(" ");
    s.append(address.postal_code.as_str());
    s.append(" ");
    s.append(address.city.as_str());
    assert(s@ =~= address.street_name@ + " "@ + address.street_no@ + " "@ + address.postal_code@
        + " "@ + address.city@);
    s
}

/// The request path the schedule of a calendar identifier is fetched under.
pub fn schedule_path(id: &str) -> (r: String)
    ensures
        r@ == "api/calendar/address/"@ + id@,
{
    let mut s = String::from_str("api/calendar/address/");
    s.append(id);
    s
}

/// Decides address resolution: the lookup must return exactly one match and
/// that match must carry an identifier; every other outcome is
/// [`FetchError::AddressNotFound`].  `None` stands for a response that was no
/// array at all; a `None` inside stands for a match without an identifier.
pub fn resolve_lookup(matches: Option<Vec<Option<String>>>) -> (r: Result<AddressId, FetchError>)
    ensures
        r is Ok <==> matches is Some && matches->Some_0@.len() == 1 && matches->Some_0@[0] is Some,
        r is Ok ==> r->Ok_0.id == matches->Some_0@[0]->Some_0,
        r is Err ==> r->Err_0 == FetchError::AddressNotFound,
{
    match matches {
        Some(mut found) => {
            if found.len() == 1 {
                match found.pop() {
                    Some(Some(id)) => Ok(AddressId { id }),
                    _ => Err(FetchError::AddressNotFound),
                }
            } else {
                Err(FetchError::AddressNotFound)
            }
        },
        None => Err(FetchError::AddressNotFound),
    }
}

/// Decides on the response status: only the success range lets the pass go
/// on; everything else is a [`FetchError::RemoteStatus`] carrying the code.
pub fn check_status(status: u16) -> (r: Result<(), FetchError>)
    ensures
        r is Ok <==> 200 <= status < 300,
        r is Err ==> r->Err_0 == FetchError::RemoteStatus(status),
{
    if 200 <= status && status < 300 {
        Ok(())
    } else {
        Err(FetchError::RemoteStatus(status))
    }
}

/// The pickup entries of one load: one entry per fraction, all on the load's
/// date.
pub open spec fn containers_of_load(load: PlannedLoad) -> Seq<Container> {
    load.fractions@.map_values(|f: String| Container { name: f, date: load.date })
}

/// The pickup entries of a whole list of loads, in order.
pub open spec fn containers_of_loads(loads: Seq<PlannedLoad>) -> Seq<Container>
    decreases loads.len(),
{
    if loads.len() == 0 {
        Seq::empty()
    } else {
        containers_of_loads(loads.drop_last()) + containers_of_load(loads.last())
    }
}

/// Flattens one stand into its pickup entries: every fraction of every
/// planned load, paired with the load's date.
pub fn containers_of_stand(stand: &StandData) -> (r: Vec<Container>)
    ensures
        r@ == containers_of_loads(stand.planned_loads@),
{
    let mut out: Vec<Container> = Vec::new();
    let loads = &stand.planned_loads;
    let n = loads.len();
    let mut i: usize = 0;
    while i < n
        invariant
            n == loads@.len(),
            i <= n,
            out@ == containers_of_loads(loads@.take(i as int)),
        decreases n - i,
    {
        let load = &loads[i];
        let m = load.fractions.len();
        let mut j: usize = 0;
        while j < m
            invariant
                0 <= i < loads@.len(),
                load == loads@[i as int],
                m == load.fractions@.len(),
                j <= m,
                out@ == containers_of_loads(loads@.take(i as int)) + containers_of_load(
                    *load,
                ).take(j as int),
            decreases m - j,
        {
            out.push(Container { name: load.fractions[j].clone(), date: load.date });
            assert(containers_of_load(*load).take(j + 1) =~= containers_of_load(*load).take(
                j as int,
            ).push(containers_of_load(*load)[j as int]));
            j = j + 1;
        }
        proof {
            assert(containers_of_load(*load).take(m as int) =~= containers_of_load(*load));
            assert(loads@.take(i + 1).drop_last() =~= loads@.take(i as int));
            assert(loads@.take(i + 1).last() == loads@[i as int]);
        }
        i = i + 1;
    }
    proof {
        assert(loads@.take(n as int) =~= loads@);
    }
    out
}

/// Decides what a decoded calendar response yields: a decoding failure is a
/// [`FetchError::Parse`], an empty response is [`FetchError::NoData`], and
/// otherwise the first stand's loads become the pickup entries.
pub fn containers_from_stands(decoded: Result<Vec<StandData>, String>) -> (r: Result<
    Vec<Container>,
    FetchError,
>)
    ensures
        r is Ok <==> decoded is Ok && decoded->Ok_0@.len() > 0,
        decoded is Ok && decoded->Ok_0@.len() > 0 ==> r->Ok_0@ == containers_of_loads(
            decoded->Ok_0@[0].planned_loads@,
        ),
        decoded is Err ==> r->Err_0 == FetchError::Parse(decoded->Err_0),
        decoded is Ok && decoded->Ok_0@.len() == 0 ==> r->Err_0 == FetchError::NoData,
{
    match decoded {
        Err(detail) => Err(FetchError::Parse(detail)),
        Ok(stands) => {
            if stands.len() == 0 {
                Err(FetchError::NoData)
            } else {
                Ok(containers_of_stand(&stands[0]))
            }
        },
    }
}

/// Resolves the legacy markup source's raw `DD/MM` field to a full calendar
/// date against today's date.  `None` when the field is malformed or the
/// resolved triple is no proper calendar date; a `Some` result carries the
/// parsed day and month, with the year inferred from some well-formed
/// current date by the rollover rule.
pub fn resolve_raw_next_empty(raw: &str) -> (r: Option<Date>)
    ensures
        r is Some ==> r->Some_0.wf(),
        r is Some ==> raw@.len() == 5 && spec_is_digit(raw@[0]) && spec_is_digit(raw@[1]) && raw@[2]
            == '/' && spec_is_digit(raw@[3]) && spec_is_digit(raw@[4]),
        r is Some ==> r->Some_0.day == 10 * spec_digit_val(raw@[0]) + spec_digit_val(raw@[1]),
        r is Some ==> r->Some_0.month == 10 * spec_digit_val(raw@[3]) + spec_digit_val(raw@[4]),
        r is Some ==> exists|today: Date|
            today.wf() && r->Some_0.year == spec_inferred_year(
                r->Some_0.day as int,
                r->Some_0.month as int,
                today,
            ),
{
    match parse_day_month(raw) {
        Some((day, month)) => resolve_day_month(day, month),
        None => None,
    }
}

/// Index of the first entry carrying `name`, or -1 when no entry does.
pub open spec fn key_index(s: Seq<Container>, name: Seq<char>) -> int
    decreases s.len(),
{
    if s.len() == 0 {
        -1
    } else if s[0].name@ == name {
        0
    } else {
        let rest = key_index(s.drop_first(), name);
        if rest == -1 {
            -1
        } else {
            rest + 1
        }
    }
}

/// `key_index` finds the first match: -1 means no entry carries the name,
/// and otherwise it is the least index that does.
pub proof fn lemma_key_index(s: Seq<Container>, name: Seq<char>)
    ensures
        key_index(s, name) == -1 ==> forall|i: int| 0 <= i < s.len() ==> s[i].name@ != name,
        key_index(s, name) != -1 ==> 0 <= key_index(s, name) < s.len(),
        key_index(s, name) != -1 ==> s[key_index(s, name)].name@ == name,
        key_index(s, name) != -1 ==> forall|i: int|
            0 <= i < key_index(s, name) ==> s[i].name@ != name,
    decreases s.len(),
{
    if s.len() == 0 {
    } else if s[0].name@ == name {
    } else {
        let rest = s.drop_first();
        lemma_key_index(rest, name);
        assert(forall|i: int| 0 <= i < rest.len() ==> rest[i] == s[i + 1]);
        let k = key_index(s, name);
        if k == -1 {
            assert forall|i: int| 0 <= i < s.len() implies s[i].name@ != name by {
                if i > 0 {
                    assert(rest[i - 1] == s[i]);
                    assert(rest[i - 1].name@ != name);
                }
            }
        } else {
            assert(key_index(rest, name) == k - 1);
            assert(s[k] == rest[k - 1]);
            assert forall|i: int| 0 <= i < k implies s[i].name@ != name by {
                if i > 0 {
                    assert(rest[i - 1] == s[i]);
                    assert(rest[i - 1].name@ != name);
                }
            }
        }
    }
}

/// How one raw entry enters the normalized set: a new key is appended, a
/// colliding key keeps whichever entry has the strictly earlier due date
/// (ties keep the entry already present).
pub open spec fn norm_insert(acc: Seq<Container>, c: Container) -> Seq<Container> {
    let k = key_index(acc, c.name@);
    if k == -1 {
        acc.push(c)
    } else if c.date.spec_lt(acc[k].date) {
        acc.update(k, c)
    } else {
        acc
    }
}

/// The normalized entry set of a raw entry list: entries folded in from the
/// left, one surviving entry per key, first-seen key order.
pub open spec fn norm(s: Seq<Container>) -> Seq<Container>
    decreases s.len(),
{
    if s.len() == 0 {
        Seq::empty()
    } else {
        norm_insert(norm(s.drop_last()), s.last())
    }
}

/// Every entry of the normalized set carries a distinct key.
pub proof fn lemma_norm_unique(s: Seq<Container>)
    ensures
        forall|p: int, q: int| 0 <= p < q < norm(s).len() ==> norm(s)[p].name@ != norm(s)[q].name@,
    decreases s.len(),
{
    if s.len() > 0 {
        let prefix = s.drop_last();
        let c = s.last();
        let t = norm(prefix);
        let r = norm(s);
        lemma_norm_unique(prefix);
        lemma_key_index(t, c.name@);
        let k = key_index(t, c.name@);
        if k == -1 {
            assert forall|p: int, q: int| 0 <= p < q < r.len() implies r[p].name@ != r[q].name@ by {
                if q == t.len() {
                    assert(r[q] == c);
                    assert(t[p].name@ != c.name@);
                }
            }
        } else if c.date.spec_lt(t[k].date) {
            assert(r == t.update(k, c));
            assert(forall|p: int| 0 <= p < r.len() ==> r[p].name@ == t[p].name@);
        }
    }
}

/// Every entry of the normalized set is one of the raw entries.
pub proof fn lemma_norm_membership(s: Seq<Container>)
    ensures
        forall|q: int|
            0 <= q < norm(s).len() ==> exists|i: int|
                0 <= i < s.len() && (#[trigger] s[i]) == (#[trigger] norm(s)[q]),
    decreases s.len(),
{
    if s.len() > 0 {
        let prefix = s.drop_last();
        let c = s.last();
        let t = norm(prefix);
        let r = norm(s);
        lemma_norm_membership(prefix);
        lemma_key_index(t, c.name@);
        assert(forall|i: int| 0 <= i < prefix.len() ==> prefix[i] == s[i]);
        let k = key_index(t, c.name@);
        assert forall|q: int| 0 <= q < r.len() implies exists|i: int|
            0 <= i < s.len() && (#[trigger] s[i]) == (#[trigger] r[q]) by {
            if (k == -1 && q < t.len()) || (k != -1 && c.date.spec_lt(t[k].date) && q != k) || (k
                != -1 && !c.date.spec_lt(t[k].date)) {
                assert(r[q] == t[q]);
                let i = choose|i: int|
                    0 <= i < prefix.len() && (#[trigger] prefix[i]) == (#[trigger] t[q]);
                assert(s[i] == r[q]);
            } else {
                assert(r[q] == c);
                assert(s[s.len() - 1] == r[q]);
            }
        }
    }
}

/// Every raw entry's key appears in the normalized set.
pub proof fn lemma_norm_complete(s: Seq<Container>)
    ensures
        forall|i: int|
            0 <= i < s.len() ==> exists|q: int|
                0 <= q < norm(s).len() && (#[trigger] norm(s)[q]).name@ == (#[trigger] s[i]).name@,
    decreases s.len(),
{
    if s.len() > 0 {
        let prefix = s.drop_last();
        let c = s.last();
        let t = norm(prefix);
        let r = norm(s);
        lemma_norm_complete(prefix);
        lemma_key_index(t, c.name@);
        assert(forall|i: int| 0 <= i < prefix.len() ==> prefix[i] == s[i]);
        let k = key_index(t, c.name@);
        assert forall|i: int| 0 <= i < s.len() implies exists|q: int|
            0 <= q < r.len() && (#[trigger] r[q]).name@ == (#[trigger] s[i]).name@ by {
            if i < prefix.len() {
                let q = choose|q: int|
                    0 <= q < t.len() && (#[trigger] t[q]).name@ == (#[trigger] prefix[i]).name@;
                assert(r[q].name@ == s[i].name@);
            } else if k == -1 {
                assert(r[t.len() as int].name@ == s[i].name@);
            } else {
                assert(r[k].name@ == c.name@);
            }
        }
    }
}

/// Law: on an entity-key collision the surviving entry has the earliest due
/// date of the colliding set: a normalized entry's due date is on or before
/// the due date of every raw entry that carries the same key.  Together with
/// [`lemma_norm_unique`], [`lemma_norm_membership`] and [`lemma_norm_complete`]
/// this pins the normalized set down to one earliest raw entry per key.
pub proof fn lemma_normalize_keeps_earliest(s: Seq<Container>)
    ensures
        forall|i: int, q: int|
            0 <= i < s.len() && 0 <= q < norm(s).len() && norm(s)[q].name@ == s[i].name@
                ==> norm(s)[q].date.spec_le(s[i].date),
    decreases s.len(),
{
    if s.len() > 0 {
        let prefix = s.drop_last();
        let c = s.last();
        let t = norm(prefix);
        let r = norm(s);
        lemma_normalize_keeps_earliest(prefix);
        lemma_norm_unique(prefix);
        lemma_norm_complete(prefix);
        lemma_key_index(t, c.name@);
        assert(forall|i: int| 0 <= i < prefix.len() ==> prefix[i] == s[i]);
        let k = key_index(t, c.name@);
        assert forall|i: int, q: int|
            0 <= i < s.len() && 0 <= q < r.len() && r[q].name@ == s[i].name@ implies r[q].date.spec_le(
            s[i].date,
        ) by {
            lemma_date_order_total(r[q].date, s[i].date);
            if k == -1 {
                if q < t.len() {
                    if i < prefix.len() {
                        assert(t[q].date.spec_le(prefix[i].date));
                    } else {
                        assert(t[q].name@ != c.name@);
                    }
                } else {
                    assert(r[q] == c);
                    if i < prefix.len() {
                        let q2 = choose|q2: int|
                            0 <= q2 < t.len() && (#[trigger] t[q2]).name@ == (
                            #[trigger] prefix[i]).name@;
                        assert(t[q2].name@ != c.name@);
                    }
                }
            } else if c.date.spec_lt(t[k].date) {
                assert(r == t.update(k, c));
                if q != k {
                    assert(r[q] == t[q]);
                    if i < prefix.len() {
                        assert(t[q].date.spec_le(prefix[i].date));
                    } else {
                        assert(t[q].name@ == c.name@ && t[k].name@ == c.name@);
                        if q < k {
                            assert(t[q].name@ != t[k].name@);
                        } else {
                            assert(t[k].name@ != t[q].name@);
                        }
                    }
                } else {
                    assert(r[k] == c);
                    if i < prefix.len() {
                        assert(t[k].date.spec_le(prefix[i].date));
                        lemma_date_order_total(c.date, t[k].date);
                        lemma_date_order_total(t[k].date, prefix[i].date);
                        lemma_date_order_total(c.date, prefix[i].date);
                        assert(c.date.spec_le(prefix[i].date));
                    }
                }
            } else {
                assert(r == t);
                lemma_date_order_total(c.date, t[k].date);
                if i < prefix.len() {
                    assert(t[q].date.spec_le(prefix[i].date));
                } else {
                    assert(r[q].name@ == c.name@ && t[k].name@ == c.name@);
                    if q < k {
                        assert(t[q].name@ != t[k].name@);
                    } else if q > k {
                        assert(t[k].name@ != t[q].name@);
                    }
                    assert(q == k);
                    assert(t[k].date.spec_le(c.date));
                }
            }
        }
    }
}

/// First index of `entries` carrying `name`, by linear scan.
fn find_key(entries: &Vec<Container>, name: &String) -> (r: Option<usize>)
    ensures
        r is Some ==> key_index(entries@, name@) == r->Some_0 as int,
        r is None ==> key_index(entries@, name@) == -1,
{
    let n = entries.len();
    let mut j: usize = 0;
    while j < n
        invariant
            n == entries@.len(),
            j <= n,
            forall|k: int| 0 <= k < j ==> entries@[k].name@ != name@,
        decreases n - j,
    {
        if entries[j].name == *name {
            proof {
                lemma_key_index(entries@, name@);
                let k = key_index(entries@, name@);
                assert(k != -1);
                if k < j as int {
                    assert(entries@[k].name@ != name@);
                }
            }
            return Some(j);
        }
        j = j + 1;
    }
    proof {
        lemma_key_index(entries@, name@);
        let k = key_index(entries@, name@);
        if k != -1 {
            assert(entries@[k].name@ != name@);
        }
    }
    None
}

/// Deduplicates raw entries by entity key, keeping for each key the entry
/// with the earliest due date, in first-seen key order.
pub fn normalize(raw: Vec<Container>) -> (out: Vec<Container>)
    ensures
        out@ == norm(raw@),
{
    let mut out: Vec<Container> = Vec::new();
    let n = raw.len();
    let mut i: usize = 0;
    while i < n
        invariant
            n == raw@.len(),
            i <= n,
            out@ == norm(raw@.take(i as int)),
        decreases n - i,
    {
        let item = &raw[i];
        let ghost pre = out@;
        match find_key(&out, &item.name) {
            Some(j) => {
                proof {
                    lemma_key_index(out@, item.name@);
                }
                if item.date.lt(&out[j].date) {
                    out[j] = item.clone();
                }
            },
            None => {
                out.push(item.clone());
            },
        }
        proof {
            assert(out@ == norm_insert(pre, raw@[i as int]));
            assert(raw@.take(i + 1).drop_last() =~= raw@.take(i as int));
            assert(raw@.take(i + 1).last() == raw@[i as int]);
            assert(out@ == norm(raw@.take(i + 1)));
        }
        i = i + 1;
    }
    proof {
        assert(raw@.take(n as int) =~= raw@);
    }
    out
}

} // verus!

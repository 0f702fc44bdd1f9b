//! Mapping of the usage service's JSON response onto the quota summary the
//! island shows: choice of the weekly window, the reset-credit expiry search,
//! and the plan and credit fields.

use vstd::prelude::*;
use crate::json::{
    JsonNumber, JsonValue, lookup, field, text_of, int_of, bool_of, number_of, value_of, field_of,
    text_field, int_field, bool_field, lemma_lookup_decreases,
};
use crate::text::{decimal_text, decimal_string, text_eq};
use vstd::string::StringExecFns;

verus! {

/// The first of two optional values that is present.
pub open spec fn first_some(a: Option<JsonValue>, b: Option<JsonValue>) -> Option<JsonValue> {
    if a is Some {
        a
    } else {
        b
    }
}

// ---------------------------------------------------------------------------
// Weekly window

/// A window slot counts when it is present and not `null`.
pub open spec fn usable_window(o: Option<JsonValue>) -> bool {
    o is Some && !(o->0 is Null)
}

/// The period of a window in seconds; a missing or non-integer period counts as 0.
pub open spec fn window_seconds(w: JsonValue) -> int {
    match int_of(lookup(w, "limit_window_seconds"@)) {
        Some(n) => n as int,
        None => 0,
    }
}

/// Among the usable `primary_window` and `secondary_window` of a rate-limit
/// object, the one with the longest period; on a tie the secondary one.
pub open spec fn weekly_window_of(limit: JsonValue) -> Option<JsonValue> {
    let p = lookup(limit, "primary_window"@);
    let s = lookup(limit, "secondary_window"@);
    if usable_window(p) && usable_window(s) {
        if window_seconds(p->0) > window_seconds(s->0) {
            p
        } else {
            s
        }
    } else if usable_window(p) {
        p
    } else if usable_window(s) {
        s
    } else {
        None
    }
}

fn window_seconds_exec(w: &JsonValue) -> (r: i64)
    ensures
        r as int == window_seconds(*w),
{
    match int_field(w.get("limit_window_seconds")) {
        Some(n) => n,
        None => 0,
    }
}

fn usable(o: Option<&JsonValue>) -> (r: bool)
    ensures
        r == usable_window(value_of(o)),
{
    match o {
        Some(w) => !w.is_null(),
        None => false,
    }
}

/// Picks the weekly quota window of a rate-limit object: of the present,
/// non-null primary and secondary windows, the one with the longest period.
pub fn weekly_window(limit: &JsonValue) -> (r: Result<&JsonValue, String>)
    ensures
        match r {
            Ok(w) => weekly_window_of(*limit) == Some(*w),
            Err(e) => weekly_window_of(*limit) is None && e@ == "缺少周额度"@,
        },
{
    let p = limit.get("primary_window");
    let s = limit.get("secondary_window");
    if usable(p) && usable(s) {
        let pw = p.unwrap();
        let sw = s.unwrap();
        if window_seconds_exec(pw) > window_seconds_exec(sw) {
            Ok(pw)
        } else {
            Ok(sw)
        }
    } else if usable(p) {
        Ok(p.unwrap())
    } else if usable(s) {
        Ok(s.unwrap())
    } else {
        Err(String::from_str("缺少周额度"))
    }
}

/// The weekly window is the longest-period window among those present and
/// not null, and there is one exactly when some window is present and not null.
pub proof fn lemma_weekly_window_is_longest(limit: JsonValue)
    ensures
        weekly_window_of(limit) is Some <==> (usable_window(lookup(limit, "primary_window"@))
            || usable_window(lookup(limit, "secondary_window"@))),
        weekly_window_of(limit) matches Some(w) ==> {
            &&& (weekly_window_of(limit) == lookup(limit, "primary_window"@) || weekly_window_of(
                limit,
            ) == lookup(limit, "secondary_window"@))
            &&& !(w is Null)
            &&& (usable_window(lookup(limit, "primary_window"@)) ==> window_seconds(w)
                >= window_seconds(lookup(limit, "primary_window"@)->0))
            &&& (usable_window(lookup(limit, "secondary_window"@)) ==> window_seconds(w)
                >= window_seconds(lookup(limit, "secondary_window"@)->0))
        },
{
}

// ---------------------------------------------------------------------------
// Window fields

/// `reset_after_seconds` of a window; 0 when missing or not an `i64`.
pub open spec fn reset_after_seconds_of(w: JsonValue) -> i64 {
    match int_of(lookup(w, "reset_after_seconds"@)) {
        Some(n) => n,
        None => 0,
    }
}

pub fn window_reset_after_seconds(w: &JsonValue) -> (r: i64)
    ensures
        r == reset_after_seconds_of(*w),
{
    match int_field(w.get("reset_after_seconds")) {
        Some(n) => n,
        None => 0,
    }
}

/// The `reset_at` value of a window, whatever its shape.
pub fn window_reset_at(w: &JsonValue) -> (r: Option<&JsonValue>)
    ensures
        value_of(r) == lookup(*w, "reset_at"@),
{
    w.get("reset_at")
}

/// The `used_percent` number of a window.
pub fn window_used_percent(w: &JsonValue) -> (r: Option<&JsonNumber>)
    ensures
        match r {
            Some(n) => number_of(lookup(*w, "used_percent"@)) == Some(*n),
            None => number_of(lookup(*w, "used_percent"@)) is None,
        },
{
    match w.get("used_percent") {
        Some(v) => v.as_number(),
        None => None,
    }
}

// ---------------------------------------------------------------------------
// Reset-credit expiry

/// Keys whose value is taken as the expiry itself, in the order they are tried.
pub open spec fn direct_expiry_keys() -> Seq<Seq<char>> {
    seq!["expires_at"@, "expiresAt"@, "expiration_time"@, "expirationTime"@, "expires"@]
}

/// Keys under which the expiry is searched for further down, in order.
pub open spec fn nested_expiry_keys() -> Seq<Seq<char>> {
    seq!["credits"@, "reset_credits"@, "items"@, "available"@, "grants"@]
}

/// The value of the first direct expiry key, from index `k` on, that the object has.
pub open spec fn direct_expiry_from(v: JsonValue, k: int) -> Option<JsonValue>
    decreases 5 - k,
{
    if 0 <= k < 5 {
        first_some(lookup(v, direct_expiry_keys()[k]), direct_expiry_from(v, k + 1))
    } else {
        None
    }
}

/// The expiry found in a JSON value: an object's first direct expiry key
/// wins; otherwise the first nested key whose value holds an expiry; an
/// array yields the expiry of its first element that holds one.
pub open spec fn expiry_in(v: JsonValue) -> Option<JsonValue>
    decreases v, 7int,
{
    match v {
        JsonValue::Object(_) => first_some(direct_expiry_from(v, 0), nested_expiry_from(v, 0)),
        JsonValue::Array(items) => {
            proof {
                assert(decreases_to!(v => items));
            }
            expiry_in_items(items@)
        },
        _ => None,
    }
}

/// The expiry held under the first nested key, from index `k` on, that holds one.
pub open spec fn nested_expiry_from(v: JsonValue, k: int) -> Option<JsonValue>
    decreases v, 5 - k,
{
    if 0 <= k < 5 {
        let here = match lookup(v, nested_expiry_keys()[k]) {
            Some(c) => {
                proof {
                    lemma_lookup_decreases(v, nested_expiry_keys()[k]);
                }
                expiry_in(c)
            },
            None => None,
        };
        first_some(here, nested_expiry_from(v, k + 1))
    } else {
        None
    }
}

/// The expiry of the first item that holds one.
pub open spec fn expiry_in_items(items: Seq<JsonValue>) -> Option<JsonValue>
    decreases items, 0int,
{
    if items.len() == 0 {
        None
    } else {
        first_some(expiry_in(items[0]), expiry_in_items(items.subrange(1, items.len() as int)))
    }
}

fn direct_expiry(v: &JsonValue) -> (r: Option<&JsonValue>)
    ensures
        value_of(r) == direct_expiry_from(*v, 0),
{
    let keys: [&str; 5] = ["expires_at", "expiresAt", "expiration_time", "expirationTime", "expires"];
    let mut k: usize = 0;
    while k < 5
        invariant
            k <= 5,
            keys@ == seq!["expires_at", "expiresAt", "expiration_time", "expirationTime", "expires"],
            direct_expiry_from(*v, 0) == direct_expiry_from(*v, k as int),
        decreases 5 - k,
    {
        assert(keys@[k as int]@ == direct_expiry_keys()[k as int]);
        let found = v.get(keys[k]);
        if found.is_some() {
            return found;
        }
        k = k + 1;
    }
    None
}

/// Searches a JSON value for the expiry of reset credits (see `expiry_in`).
pub fn find_expiry(v: &JsonValue) -> (r: Option<&JsonValue>)
    ensures
        value_of(r) == expiry_in(*v),
    decreases *v,
{
    match v {
        JsonValue::Object(_) => {
            let direct = direct_expiry(v);
            if direct.is_some() {
                return direct;
            }
            let keys: [&str; 5] = ["credits", "reset_credits", "items", "available", "grants"];
            let mut k: usize = 0;
            while k < 5
                invariant
                    k <= 5,
                    *v is Object,
                    keys@ == seq!["credits", "reset_credits", "items", "available", "grants"],
                    expiry_in(*v) == nested_expiry_from(*v, k as int),
                decreases 5 - k,
            {
                assert(keys@[k as int]@ == nested_expiry_keys()[k as int]);
                match v.get(keys[k]) {
                    Some(c) => {
                        proof {
                            lemma_lookup_decreases(*v, nested_expiry_keys()[k as int]);
                        }
                        let found = find_expiry(c);
                        if found.is_some() {
                            return found;
                        }
                    },
                    None => {},
                }
                k = k + 1;
            }
            None
        },
        JsonValue::Array(items) => {
            let n = items.len();
            let mut i: usize = 0;
            assert(items@.subrange(0, n as int) == items@);
            while i < n
                invariant
                    i <= n == items@.len(),
                    *v == JsonValue::Array(*items),
                    expiry_in(*v) == expiry_in_items(items@.subrange(i as int, n as int)),
                decreases n - i,
            {
                proof {
                    assert(decreases_to!(*v => *items));
                    assert(decreases_to!(*items => items@[i as int]));
                    let rest = items@.subrange(i as int, n as int);
                    assert(rest[0] == items@[i as int]);
                    assert(rest.subrange(1, rest.len() as int) == items@.subrange(i + 1, n as int));
                }
                let found = find_expiry(&items[i]);
                if found.is_some() {
                    return found;
                }
                i = i + 1;
            }
            None
        },
        _ => None,
    }
}

/// `find_expiry` through an optional value.
fn find_expiry_in<'a>(o: Option<&'a JsonValue>) -> (r: Option<&'a JsonValue>)
    ensures
        value_of(r) == match value_of(o) {
            Some(v) => expiry_in(v),
            None => None,
        },
{
    match o {
        Some(v) => find_expiry(v),
        None => None,
    }
}

/// A value found by the expiry search lies inside the searched value.
proof fn lemma_expiry_is_inside(v: JsonValue)
    ensures
        expiry_in(v) matches Some(x) ==> decreases_to!(v => x),
    decreases v, 7int,
{
    match v {
        JsonValue::Object(_) => {
            lemma_direct_expiry_is_inside(v, 0);
            lemma_nested_expiry_is_inside(v, 0);
        },
        JsonValue::Array(items) => {
            assert(decreases_to!(v => items));
            lemma_items_expiry_is_inside(items@);
            if let Some(x) = expiry_in_items(items@) {
                assert(decreases_to!(items => items@));
            }
        },
        _ => {},
    }
}

proof fn lemma_direct_expiry_is_inside(v: JsonValue, k: int)
    ensures
        direct_expiry_from(v, k) matches Some(x) ==> decreases_to!(v => x),
    decreases 5 - k,
{
    if 0 <= k < 5 {
        if lookup(v, direct_expiry_keys()[k]) is Some {
            lemma_lookup_decreases(v, direct_expiry_keys()[k]);
        } else {
            lemma_direct_expiry_is_inside(v, k + 1);
        }
    }
}

proof fn lemma_nested_expiry_is_inside(v: JsonValue, k: int)
    ensures
        nested_expiry_from(v, k) matches Some(x) ==> decreases_to!(v => x),
    decreases v, 5 - k,
{
    if 0 <= k < 5 {
        if let Some(c) = lookup(v, nested_expiry_keys()[k]) {
            lemma_lookup_decreases(v, nested_expiry_keys()[k]);
            lemma_expiry_is_inside(c);
        }
        lemma_nested_expiry_is_inside(v, k + 1);
    }
}

proof fn lemma_items_expiry_is_inside(items: Seq<JsonValue>)
    ensures
        expiry_in_items(items) matches Some(x) ==> decreases_to!(items => x),
    decreases items, 0int,
{
    if items.len() > 0 {
        lemma_expiry_is_inside(items[0]);
        let rest = items.subrange(1, items.len() as int);
        lemma_items_expiry_is_inside(rest);
        assert(decreases_to!(items => items[0]));
        assert(decreases_to!(items => rest));
    }
}

/// `c` is a value the expiry search descends into from `v`: the value of a
/// nested key of an object, or an element of an array.
pub open spec fn search_child(v: JsonValue, c: JsonValue) -> bool {
    match v {
        JsonValue::Object(_) => exists|k: int|
            0 <= k < 5 && #[trigger] lookup(v, nested_expiry_keys()[k]) == Some(c),
        JsonValue::Array(items) => exists|i: int| 0 <= i < items@.len() && #[trigger] items@[i] == c,
        _ => false,
    }
}

/// `x` is reached from `v` by `n` descents of the expiry search.
pub open spec fn search_reaches(v: JsonValue, x: JsonValue, n: nat) -> bool
    decreases n,
{
    if n == 0 {
        x == v
    } else {
        exists|c: JsonValue| #[trigger] search_child(v, c) && search_reaches(c, x, (n - 1) as nat)
    }
}

/// `x` is an object holding one of the direct expiry keys.
pub open spec fn holds_expiry_key(x: JsonValue) -> bool {
    direct_expiry_from(x, 0) is Some
}

proof fn lemma_direct_needs_object(v: JsonValue, k: int)
    ensures
        direct_expiry_from(v, k) is Some ==> v is Object,
    decreases 5 - k,
{
    if 0 <= k < 5 {
        lemma_direct_needs_object(v, k + 1);
    }
}

proof fn lemma_nested_found(v: JsonValue, j: int, k: int, c: JsonValue)
    requires
        0 <= j <= k < 5,
        lookup(v, nested_expiry_keys()[k]) == Some(c),
        expiry_in(c) is Some,
    ensures
        nested_expiry_from(v, j) is Some,
    decreases k - j,
{
    if j < k {
        lemma_nested_found(v, j + 1, k, c);
    }
}

proof fn lemma_items_found(items: Seq<JsonValue>, i: int)
    requires
        0 <= i < items.len(),
        expiry_in(items[i]) is Some,
    ensures
        expiry_in_items(items) is Some,
    decreases i,
{
    if i > 0 {
        let rest = items.subrange(1, items.len() as int);
        assert(rest[i - 1] == items[i]);
        lemma_items_found(rest, i - 1);
    }
}

proof fn lemma_nested_reaches(v: JsonValue, k: int)
    requires
        0 <= k <= 5,
        nested_expiry_from(v, k) is Some,
    ensures
        exists|x: JsonValue, n: nat|
            search_reaches(v, x, n) && direct_expiry_from(x, 0) == nested_expiry_from(v, k),
    decreases v, 5 - k,
{
    if let Some(c) = lookup(v, nested_expiry_keys()[k]) {
        if expiry_in(c) is Some {
            lemma_lookup_decreases(v, nested_expiry_keys()[k]);
            lemma_expiry_reaches(c);
            let (x, n) = choose|x: JsonValue, n: nat|
                search_reaches(c, x, n) && direct_expiry_from(x, 0) == expiry_in(c);
            assert(v is Object) by {
                if !(v is Object) {
                    assert(lookup(v, nested_expiry_keys()[k]) is None);
                }
            }
            assert(search_child(v, c));
            assert(search_reaches(v, x, n + 1));
            return;
        }
    }
    lemma_nested_reaches(v, k + 1);
}

proof fn lemma_items_reach(v: JsonValue, items: Seq<JsonValue>, i: int)
    requires
        v is Array,
        items == v->Array_0@,
        0 <= i <= items.len(),
        expiry_in_items(items.subrange(i, items.len() as int)) is Some,
    ensures
        exists|x: JsonValue, n: nat|
            search_reaches(v, x, n) && direct_expiry_from(x, 0) == expiry_in_items(
                items.subrange(i, items.len() as int),
            ),
    decreases items, items.len() - i,
{
    let rest = items.subrange(i, items.len() as int);
    assert(rest.len() > 0);
    if expiry_in(items[i]) is Some {
        lemma_expiry_reaches(items[i]);
        let (x, n) = choose|x: JsonValue, n: nat|
            search_reaches(items[i], x, n) && direct_expiry_from(x, 0) == expiry_in(items[i]);
        assert(rest[0] == items[i]);
        assert(search_child(v, items[i]));
        assert(search_reaches(v, x, n + 1));
    } else {
        assert(rest[0] == items[i]);
        assert(rest.subrange(1, rest.len() as int) == items.subrange(i + 1, items.len() as int));
        lemma_items_reach(v, items, i + 1);
    }
}

/// When the search finds an expiry, it is what the direct keys of some value
/// it descends to give.
proof fn lemma_expiry_reaches(v: JsonValue)
    requires
        expiry_in(v) is Some,
    ensures
        exists|x: JsonValue, n: nat|
            search_reaches(v, x, n) && direct_expiry_from(x, 0) == expiry_in(v),
    decreases v, 6int,
{
    match v {
        JsonValue::Object(_) => {
            if direct_expiry_from(v, 0) is Some {
                assert(search_reaches(v, v, 0));
            } else {
                lemma_nested_reaches(v, 0);
            }
        },
        JsonValue::Array(items) => {
            assert(items@.subrange(0, items@.len() as int) == items@);
            assert(decreases_to!(v => items));
            lemma_items_reach(v, items@, 0);
        },
        _ => {},
    }
}

/// When some value the search descends to holds an expiry key, the search
/// finds an expiry.
proof fn lemma_reached_key_found(v: JsonValue, x: JsonValue, n: nat)
    requires
        search_reaches(v, x, n),
        holds_expiry_key(x),
    ensures
        expiry_in(v) is Some,
    decreases n,
{
    if n == 0 {
        lemma_direct_needs_object(x, 0);
    } else {
        let c = choose|c: JsonValue| #[trigger] search_child(v, c) && search_reaches(c, x, (n - 1) as nat);
        lemma_reached_key_found(c, x, (n - 1) as nat);
        match v {
            JsonValue::Object(_) => {
                let k = choose|k: int| 0 <= k < 5 && #[trigger] lookup(v, nested_expiry_keys()[k]) == Some(c);
                lemma_nested_found(v, 0, k, c);
            },
            JsonValue::Array(items) => {
                let i = choose|i: int| 0 <= i < items@.len() && #[trigger] items@[i] == c;
                lemma_items_found(items@, i);
            },
            _ => {},
        }
    }
}

/// The search finds an expiry exactly when some value it descends to (the
/// value itself, nested-key values of objects, elements of arrays, and so on
/// down) is an object holding one of the direct expiry keys; what it finds
/// is the value of the first direct expiry key of such a reached object, and
/// lies inside the searched value.
pub proof fn lemma_expiry_found_iff_key_reachable(v: JsonValue)
    ensures
        expiry_in(v) is Some <==> exists|x: JsonValue, n: nat|
            search_reaches(v, x, n) && holds_expiry_key(x),
        expiry_in(v) is Some ==> exists|x: JsonValue, n: nat|
            search_reaches(v, x, n) && direct_expiry_from(x, 0) == expiry_in(v),
        expiry_in(v) matches Some(x) ==> decreases_to!(v => x),
{
    if expiry_in(v) is Some {
        lemma_expiry_reaches(v);
        let (x, n) = choose|x: JsonValue, n: nat|
            search_reaches(v, x, n) && direct_expiry_from(x, 0) == expiry_in(v);
        assert(search_reaches(v, x, n) && holds_expiry_key(x));
    }
    if exists|x: JsonValue, n: nat| search_reaches(v, x, n) && holds_expiry_key(x) {
        let (x, n) = choose|x: JsonValue, n: nat| search_reaches(v, x, n) && holds_expiry_key(x);
        lemma_reached_key_found(v, x, n);
    }
    lemma_expiry_is_inside(v);
}

// ---------------------------------------------------------------------------
// Usage summary

/// The quota summary read from a usage response. The weekly window, the
/// expiry and the balance are parts of the response (or of the reset-credit
/// detail) that the caller turns into display values.
pub struct UsageSummary<'a> {
    pub weekly: &'a JsonValue,
    pub plan_type: String,
    pub plan_multiplier: Option<String>,
    pub reset_credits: Option<i64>,
    pub reset_credit_expires_at: Option<&'a JsonValue>,
    pub credit_balance: Option<&'a JsonNumber>,
    pub has_credits: bool,
}

/// The plan name; `unknown` when `plan_type` is missing or not a string.
pub open spec fn plan_type_of(body: JsonValue) -> Seq<char> {
    match text_of(lookup(body, "plan_type"@)) {
        Some(s) => s,
        None => "unknown"@,
    }
}

/// The promotion multiplier: `promo.multiplier`, or `promo.rate_limit_multiplier`
/// when there is no `multiplier` key, when that value is a string.
pub open spec fn plan_multiplier_of(body: JsonValue) -> Option<Seq<char>> {
    let promo = lookup(body, "promo"@);
    let m = field(promo, "multiplier"@);
    text_of(if m is Some { m } else { field(promo, "rate_limit_multiplier"@) })
}

/// Keys of the reset-credit count, in the order they are tried.
pub open spec fn reset_count_keys() -> Seq<Seq<char>> {
    seq!["available_count"@, "availableCount"@, "remaining"@, "count"@]
}

/// The first of the count keys, from index `k` on, whose value is an `i64`.
pub open spec fn reset_count_from(reset: Option<JsonValue>, k: int) -> Option<i64>
    decreases 4 - k,
{
    if 0 <= k < 4 {
        match int_of(field(reset, reset_count_keys()[k])) {
            Some(n) => Some(n),
            None => reset_count_from(reset, k + 1),
        }
    } else {
        None
    }
}

/// The expiry of reset credits: searched in the detail response when there is
/// one and it holds an expiry, else in the response's `rate_limit_reset_credits`.
pub open spec fn reset_expiry_of(body: JsonValue, detail: Option<JsonValue>) -> Option<JsonValue> {
    let from_detail = match detail {
        Some(d) => expiry_in(d),
        None => None,
    };
    let from_reset = match lookup(body, "rate_limit_reset_credits"@) {
        Some(r) => expiry_in(r),
        None => None,
    };
    first_some(from_detail, from_reset)
}

pub open spec fn credit_balance_of(body: JsonValue) -> Option<JsonNumber> {
    number_of(field(lookup(body, "credits"@), "balance"@))
}

pub open spec fn has_credits_of(body: JsonValue) -> bool {
    bool_of(field(lookup(body, "credits"@), "has_credits"@)) == Some(true)
}

/// The summary reports credits exactly when the response's `credits` object
/// holds the JSON value `true` under `has_credits`; `false`, a missing key or
/// any other value reports none.
pub proof fn lemma_has_credits_is_stored_true(body: JsonValue)
    ensures
        has_credits_of(body) <==> (lookup(body, "credits"@) matches Some(c) && lookup(
            c,
            "has_credits"@,
        ) == Some(JsonValue::Bool(true))),
        (lookup(body, "credits"@) matches Some(c) && lookup(c, "has_credits"@) == Some(
            JsonValue::Bool(false),
        )) ==> !has_credits_of(body),
{
}

pub open spec fn missing_limit_message() -> Seq<char> {
    "OpenAI 未返回额度窗口"@
}

/// The `rate_limit` object of a usage response.
pub fn rate_limit_of(body: &JsonValue) -> (r: Result<&JsonValue, String>)
    ensures
        match r {
            Ok(l) => lookup(*body, "rate_limit"@) == Some(*l),
            Err(e) => lookup(*body, "rate_limit"@) is None && e@ == missing_limit_message(),
        },
{
    match body.get("rate_limit") {
        Some(l) => Ok(l),
        None => Err(String::from_str("OpenAI 未返回额度窗口")),
    }
}

fn reset_count(reset: Option<&JsonValue>) -> (r: Option<i64>)
    ensures
        r == reset_count_from(value_of(reset), 0),
{
    let keys: [&str; 4] = ["available_count", "availableCount", "remaining", "count"];
    let mut k: usize = 0;
    while k < 4
        invariant
            k <= 4,
            keys@ == seq!["available_count", "availableCount", "remaining", "count"],
            reset_count_from(value_of(reset), 0) == reset_count_from(value_of(reset), k as int),
        decreases 4 - k,
    {
        assert(keys@[k as int]@ == reset_count_keys()[k as int]);
        let n = int_field(field_of(reset, keys[k]));
        if n.is_some() {
            return n;
        }
        k = k + 1;
    }
    None
}

/// Maps a usage response, and the reset-credit detail response when one was
/// obtained, onto the quota summary. Fails when the response has no
/// `rate_limit`, or when the rate limit has no usable window.
pub fn summarize_usage<'a>(body: &'a JsonValue, reset_detail: Option<&'a JsonValue>) -> (r: Result<
    UsageSummary<'a>,
    String,
>)
    ensures
        r is Ok <==> (lookup(*body, "rate_limit"@) matches Some(l) && weekly_window_of(l) is Some),
        match r {
            Ok(u) => {
                &&& weekly_window_of(lookup(*body, "rate_limit"@)->0) == Some(*u.weekly)
                &&& u.plan_type@ == plan_type_of(*body)
                &&& (match u.plan_multiplier {
                    Some(m) => plan_multiplier_of(*body) == Some(m@),
                    None => plan_multiplier_of(*body) is None,
                })
                &&& u.reset_credits == reset_count_from(lookup(*body, "rate_limit_reset_credits"@), 0)
                &&& value_of(u.reset_credit_expires_at) == reset_expiry_of(
                    *body,
                    value_of(reset_detail),
                )
                &&& (match u.credit_balance {
                    Some(n) => credit_balance_of(*body) == Some(*n),
                    None => credit_balance_of(*body) is None,
                })
                &&& u.has_credits == has_credits_of(*body)
                &&& u.has_credits <==> (lookup(*body, "credits"@) matches Some(c) && lookup(
                    c,
                    "has_credits"@,
                ) == Some(JsonValue::Bool(true)))
            },
            Err(e) => if lookup(*body, "rate_limit"@) is None {
                e@ == missing_limit_message()
            } else {
                e@ == "缺少周额度"@
            },
        },
{
    let limit = match rate_limit_of(body) {
        Ok(l) => l,
        Err(e) => return Err(e),
    };
    let credits = body.get("credits");
    let reset = body.get("rate_limit_reset_credits");
    let from_detail = find_expiry_in(reset_detail);
    let expires = if from_detail.is_some() {
        from_detail
    } else {
        find_expiry_in(reset)
    };
    let weekly = match weekly_window(limit) {
        Ok(w) => w,
        Err(e) => return Err(e),
    };
    let plan_type = match text_field(body.get("plan_type")) {
        Some(s) => s,
        None => String::from_str("unknown"),
    };
    let promo = body.get("promo");
    let multiplier = field_of(promo, "multiplier");
    let multiplier = if multiplier.is_some() {
        multiplier
    } else {
        field_of(promo, "rate_limit_multiplier")
    };
    let plan_multiplier = text_field(multiplier);
    let credit_balance = match field_of(credits, "balance") {
        Some(b) => b.as_number(),
        None => None,
    };
    let has_credits = match bool_field(field_of(credits, "has_credits")) {
        Some(b) => b,
        None => false,
    };
    proof {
        lemma_has_credits_is_stored_true(*body);
    }
    Ok(
        UsageSummary {
            weekly,
            plan_type,
            plan_multiplier,
            reset_credits: reset_count(reset),
            reset_credit_expires_at: expires,
            credit_balance,
            has_credits,
        },
    )
}

/// The account id the usage response names, sent along with the follow-up request.
pub fn response_account_id(body: &JsonValue) -> (r: Option<String>)
    ensures
        match r {
            Some(s) => text_of(lookup(*body, "account_id"@)) == Some(s@),
            None => text_of(lookup(*body, "account_id"@)) is None,
        },
{
    text_field(body.get("account_id"))
}

/// The message shown when the usage service answers with an error status
/// (`code` is 0 when the status is unknown).
pub fn status_error_message(code: u16) -> (r: String)
    ensures
        r@ == "OpenAI 额度接口错误："@ + decimal_text(code as nat),
{
    let mut s = String::from_str("OpenAI 额度接口错误：");
    let digits = decimal_string(code as u64);
    s.append(digits.as_str());
    s
}

/// Whether a request answers from the shared usage snapshot instead of
/// asking the service: the detail panel does, unless the user asked for a
/// refresh; the island owns refreshes.
pub fn serves_cached_usage(label: &str, force_refresh: bool) -> (r: bool)
    ensures
        r == (label@ == "panel"@ && !force_refresh),
{
    !force_refresh && text_eq(label, "panel")
}

} // verus!

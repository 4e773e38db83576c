//! The catalogue of item types that the market trades.
use crate::ledger::AvgPrice;
use vstd::prelude::*;

verus! {

/// Number of item types in the catalogue.
pub const RUST_TYPE_COUNT: usize = 16;

/// The name of the catalogue's item type at position `i`.
pub open spec fn rust_type(i: int) -> Seq<char> {
    if i == 0 {
        "bool"@
    } else if i == 1 {
        "u8"@
    } else if i == 2 {
        "u16"@
    } else if i == 3 {
        "u32"@
    } else if i == 4 {
        "u64"@
    } else if i == 5 {
        "u128"@
    } else if i == 6 {
        "i8"@
    } else if i == 7 {
        "i16"@
    } else if i == 8 {
        "i32"@
    } else if i == 9 {
        "i64"@
    } else if i == 10 {
        "i128"@
    } else if i == 11 {
        "f32"@
    } else if i == 12 {
        "f64"@
    } else if i == 13 {
        "str"@
    } else if i == 14 {
        "char"@
    } else {
        "never"@
    }
}

/// True when `t` names an item type of the catalogue.
pub open spec fn is_rust_type(t: Seq<char>) -> bool {
    exists|i: int| 0 <= i < RUST_TYPE_COUNT && #[trigger] rust_type(i) == t
}

/// The first catalogue position that holds `t`.
pub open spec fn is_first_rust_type_index(t: Seq<char>, i: int) -> bool {
    &&& 0 <= i < RUST_TYPE_COUNT
    &&& rust_type(i) == t
    &&& forall|j: int| 0 <= j < i ==> #[trigger] rust_type(j) != t
}

/// The catalogue names its item types once each.
pub proof fn lemma_rust_types_distinct()
    ensures
        forall|i: int, j: int|
            0 <= i < RUST_TYPE_COUNT && 0 <= j < RUST_TYPE_COUNT && i != j ==> #[trigger] rust_type(i)
                != #[trigger] rust_type(j),
{
    assert forall|i: int, j: int|
        0 <= i < RUST_TYPE_COUNT && 0 <= j < RUST_TYPE_COUNT && i != j implies #[trigger] rust_type(i)
            != #[trigger] rust_type(j) by {
        reveal_strlit("bool");
        reveal_strlit("u8");
        reveal_strlit("u16");
        reveal_strlit("u32");
        reveal_strlit("u64");
        reveal_strlit("u128");
        reveal_strlit("i8");
        reveal_strlit("i16");
        reveal_strlit("i32");
        reveal_strlit("i64");
        reveal_strlit("i128");
        reveal_strlit("f32");
        reveal_strlit("f64");
        reveal_strlit("str");
        reveal_strlit("char");
        reveal_strlit("never");
        if rust_type(i) == rust_type(j) {
            assert(rust_type(i).len() == rust_type(j).len());
            assert(rust_type(i)[0] == rust_type(j)[0]);
            assert(rust_type(i)[1] == rust_type(j)[1]);
            assert(rust_type(i).len() > 2 ==> rust_type(i)[2] == rust_type(j)[2]);
            assert(rust_type(i).len() > 3 ==> rust_type(i)[3] == rust_type(j)[3]);
        }
    }
}

/// The views of a sequence of strings.
pub open spec fn string_views(s: Seq<String>) -> Seq<Seq<char>> {
    s.map_values(|x: String| x@)
}

/// The catalogue's item type at position `i`, as a string.
pub fn rust_type_name(i: usize) -> (r: String)
    requires
        i < RUST_TYPE_COUNT,
    ensures
        r@ == rust_type(i as int),
{
    let s: &str = if i == 0 {
        "bool"
    } else if i == 1 {
        "u8"
    } else if i == 2 {
        "u16"
    } else if i == 3 {
        "u32"
    } else if i == 4 {
        "u64"
    } else if i == 5 {
        "u128"
    } else if i == 6 {
        "i8"
    } else if i == 7 {
        "i16"
    } else if i == 8 {
        "i32"
    } else if i == 9 {
        "i64"
    } else if i == 10 {
        "i128"
    } else if i == 11 {
        "f32"
    } else if i == 12 {
        "f64"
    } else if i == 13 {
        "str"
    } else if i == 14 {
        "char"
    } else {
        "never"
    };
    s.to_owned()
}

/// All item types of the catalogue, in catalogue order.
fn catalogue() -> (r: Vec<String>)
    ensures
        r@.len() == RUST_TYPE_COUNT,
        forall|i: int| 0 <= i < RUST_TYPE_COUNT ==> #[trigger] r@[i]@ == rust_type(i),
        string_views(r@).no_duplicates(),
{
    let mut r: Vec<String> = Vec::new();
    let mut i: usize = 0;
    while i < RUST_TYPE_COUNT
        invariant
            i <= RUST_TYPE_COUNT,
            r@.len() == i,
            forall|j: int| 0 <= j < i ==> #[trigger] r@[j]@ == rust_type(j),
        decreases RUST_TYPE_COUNT - i,
    {
        r.push(rust_type_name(i));
        i = i + 1;
    }
    proof {
        lemma_rust_types_distinct();
        assert forall|a: int, b: int|
            0 <= a < string_views(r@).len() && 0 <= b < string_views(r@).len() && a != b implies string_views(
            r@,
        )[a] != string_views(r@)[b] by {
            assert(string_views(r@)[a] == rust_type(a));
            assert(string_views(r@)[b] == rust_type(b));
        }
    }
    r
}

/// With a `count` of 0, the whole catalogue in catalogue order; otherwise
/// `count` distinct item types of the catalogue drawn at random (all of them
/// when `count` exceeds the catalogue).
pub fn get_rust_types(count: usize) -> (r: Vec<String>)
    ensures
        count == 0 ==> r@.len() == RUST_TYPE_COUNT && forall|i: int|
            0 <= i < RUST_TYPE_COUNT ==> #[trigger] r@[i]@ == rust_type(i),
        count > 0 ==> r@.len() == if count < RUST_TYPE_COUNT {
            count as int
        } else {
            RUST_TYPE_COUNT as int
        },
        forall|k: int| 0 <= k < r@.len() ==> is_rust_type(#[trigger] r@[k]@),
        string_views(r@).no_duplicates(),
{
    let all = catalogue();
    if count == 0 {
        proof {
            assert forall|k: int| 0 <= k < all@.len() implies is_rust_type(#[trigger] all@[k]@) by {
                assert(rust_type(k) == all@[k]@);
            }
        }
        return all;
    }
    let r = crate::random::choose_multiple(&all, count);
    proof {
        assert forall|k: int| 0 <= k < r@.len() implies is_rust_type(#[trigger] r@[k]@) by {
            let p = choose|p: int| 0 <= p < all@.len() && all@[p] == r@[k];
            assert(rust_type(p) == all@[p]@);
        }
    }
    r
}

/// Looks `t` up in the catalogue: its first position, or `None` when it is
/// not an item type of the catalogue.
pub fn find_rust_type(t: &String) -> (r: Option<usize>)
    ensures
        match r {
            Some(i) => is_first_rust_type_index(t@, i as int),
            None => !is_rust_type(t@),
        },
{
    let mut i: usize = 0;
    while i < RUST_TYPE_COUNT
        invariant
            i <= RUST_TYPE_COUNT,
            forall|j: int| 0 <= j < i ==> #[trigger] rust_type(j) != t@,
        decreases RUST_TYPE_COUNT - i,
    {
        let name = rust_type_name(i);
        if name == *t {
            return Some(i);
        }
        i = i + 1;
    }
    None
}

/// The catalogue position of the item type `t`, which must be in the catalogue.
pub fn get_rust_type_index(t: String) -> (r: usize)
    requires
        is_rust_type(t@),
    ensures
        is_first_rust_type_index(t@, r as int),
{
    match find_rust_type(&t) {
        Some(i) => i,
        None => 0,
    }
}

/// The keys of a sequence of pairs.
pub open spec fn pair_keys(pairs: Seq<(String, AvgPrice)>) -> Seq<String> {
    pairs.map_values(|p: (String, AvgPrice)| p.0)
}

/// Spreads the price points of the tracked types over the whole catalogue,
/// in catalogue order; a type without a point gets an empty one.
pub fn convert_minimal_to_full(avg_prices: Vec<(String, AvgPrice)>) -> (r: Vec<AvgPrice>)
    requires
        string_views(pair_keys(avg_prices@)).no_duplicates(),
    ensures
        r@.len() == RUST_TYPE_COUNT,
        forall|i: int, k: int|
            0 <= i < RUST_TYPE_COUNT && 0 <= k < avg_prices@.len() && (#[trigger] avg_prices@[k]).0@
                == rust_type(i) ==> #[trigger] r@[i] == avg_prices@[k].1,
        forall|i: int|
            0 <= i < RUST_TYPE_COUNT && (forall|k: int|
                0 <= k < avg_prices@.len() ==> (#[trigger] avg_prices@[k]).0@ != rust_type(i))
                ==> #[trigger] r@[i] == (AvgPrice { value: 0, quantity: 0 }),
{
    let mut r: Vec<AvgPrice> = Vec::new();
    let mut i: usize = 0;
    while i < RUST_TYPE_COUNT
        invariant
            i <= RUST_TYPE_COUNT,
            r@.len() == i,
            string_views(pair_keys(avg_prices@)).no_duplicates(),
            forall|j: int, k: int|
                0 <= j < i && 0 <= k < avg_prices@.len() && (#[trigger] avg_prices@[k]).0@
                    == rust_type(j) ==> #[trigger] r@[j] == avg_prices@[k].1,
            forall|j: int|
                0 <= j < i && (forall|k: int|
                    0 <= k < avg_prices@.len() ==> (#[trigger] avg_prices@[k]).0@ != rust_type(j))
                    ==> #[trigger] r@[j] == (AvgPrice { value: 0, quantity: 0 }),
        decreases RUST_TYPE_COUNT - i,
    {
        let t = rust_type_name(i);
        let mut point = AvgPrice { value: 0, quantity: 0 };
        let mut k: usize = 0;
        let mut found: bool = false;
        while k < avg_prices.len()
            invariant
                k <= avg_prices@.len(),
                t@ == rust_type(i as int),
                !found ==> point == (AvgPrice { value: 0, quantity: 0 }) && forall|m: int|
                    0 <= m < k ==> (#[trigger] avg_prices@[m]).0@ != t@,
                found ==> exists|m: int|
                    0 <= m < k && (#[trigger] avg_prices@[m]).0@ == t@ && point == avg_prices@[m].1,
            decreases avg_prices@.len() - k,
        {
            if !found && avg_prices[k].0 == t {
                point = avg_prices[k].1;
                found = true;
            }
            k = k + 1;
        }
        proof {
            assert forall|m: int| 0 <= m < avg_prices@.len() && (#[trigger] avg_prices@[m]).0@ == t@ implies point == avg_prices@[m].1 by {
                let m2 = choose|m2: int| 0 <= m2 < k && (#[trigger] avg_prices@[m2]).0@ == t@ && point == avg_prices@[m2].1;
                if m != m2 {
                    assert(string_views(pair_keys(avg_prices@))[m] == string_views(pair_keys(avg_prices@))[m2]);
                }
            }
        }
        r.push(point);
        i = i + 1;
    }
    r
}

/// The views of key/value pairs.
pub open spec fn pair_views(pairs: Seq<(String, String)>) -> Seq<(Seq<char>, Seq<char>)> {
    pairs.map_values(|p: (String, String)| (p.0@, p.1@))
}

/// One member of a response object: `"key": "value"`.
pub open spec fn json_field(key: Seq<char>, value: Seq<char>) -> Seq<char> {
    "\""@ + key + "\": \""@ + value + "\""@
}

/// The members for `pairs`, in order, separated by `", "`.
pub open spec fn json_fields(pairs: Seq<(Seq<char>, Seq<char>)>) -> Seq<char>
    decreases pairs.len(),
{
    if pairs.len() == 0 {
        Seq::empty()
    } else if pairs.len() == 1 {
        json_field(pairs[0].0, pairs[0].1)
    } else {
        json_fields(pairs.drop_last()) + ", "@ + json_field(pairs.last().0, pairs.last().1)
    }
}

/// The response object for `pairs`: `{ "k1": "v1", "k2": "v2" }`. With no
/// pairs at all, only the closing `" }"` is left.
pub open spec fn json_object(pairs: Seq<(Seq<char>, Seq<char>)>) -> Seq<char> {
    if pairs.len() == 0 {
        " }"@
    } else {
        "{ "@ + json_fields(pairs) + " }"@
    }
}

/// Writes `values` as a flat response object whose members are all strings,
/// in the order given (callers list keys in lexicographic order).
pub fn construct_json(values: &Vec<(String, String)>) -> (r: String)
    ensures
        r@ == json_object(pair_views(values@)),
{
    if values.len() == 0 {
        return " }".to_owned();
    }
    let ghost pv = pair_views(values@);
    let mut out = "{ ".to_owned();
    let mut i: usize = 0;
    while i < values.len()
        invariant
            i <= values@.len(),
            values@.len() > 0,
            pv == pair_views(values@),
            out@ == "{ "@ + json_fields(pv.subrange(0, i as int)),
        decreases values@.len() - i,
    {
        let ghost before = out@;
        if i > 0 {
            out.append(", ");
        }
        out.append("\"");
        out.append(values[i].0.as_str());
        out.append("\": \"");
        out.append(values[i].1.as_str());
        out.append("\"");
        proof {
            let sub = pv.subrange(0, i + 1);
            assert(sub.drop_last() =~= pv.subrange(0, i as int));
            assert(sub.last() == (values@[i as int].0@, values@[i as int].1@));
            if i == 0 {
                assert(out@ =~= "{ "@ + json_field(values@[0].0@, values@[0].1@));
            } else {
                assert(out@ =~= before + ", "@ + json_field(values@[i as int].0@, values@[i as int].1@));
            }
        }
        i = i + 1;
    }
    out.append(" }");
    proof {
        assert(pv.subrange(0, i as int) =~= pv);
    }
    out
}

/// The pair `(key, value)` as owned strings.
pub fn field(key: &str, value: String) -> (r: (String, String))
    ensures
        r.0@ == key@,
        r.1@ == value@,
{
    (key.to_owned(), value)
}

} // verus!

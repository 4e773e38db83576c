//! Names and catchphrases for vendors that the market makes up itself.
use vstd::prelude::*;

verus! {

pub const ADJECTIVE_COUNT: usize = 16;

pub const OCCUPATION_COUNT: usize = 16;

pub const CATCHPHRASE_COUNT: usize = 12;

/// The adjective at position `i` of the name list.
pub open spec fn adjective(i: int) -> Seq<char> {
    if i == 0 {
        "Dry"@
    } else if i == 1 {
        "Oafish"@
    } else if i == 2 {
        "Unusual"@
    } else if i == 3 {
        "Extra-Large"@
    } else if i == 4 {
        "Thirsty"@
    } else if i == 5 {
        "Alluring"@
    } else if i == 6 {
        "Bewildered"@
    } else if i == 7 {
        "Steadfast"@
    } else if i == 8 {
        "Rotund"@
    } else if i == 9 {
        "Unsightly"@
    } else if i == 10 {
        "Swanky"@
    } else if i == 11 {
        "Majestic"@
    } else if i == 12 {
        "Torpid"@
    } else if i == 13 {
        "Capricious"@
    } else if i == 14 {
        "Vacuous"@
    } else {
        "Exclusive"@
    }
}

fn adjective_text(i: usize) -> (r: &'static str)
    requires
        i < ADJECTIVE_COUNT,
    ensures
        r@ == adjective(i as int),
{
    if i == 0 {
        "Dry"
    } else if i == 1 {
        "Oafish"
    } else if i == 2 {
        "Unusual"
    } else if i == 3 {
        "Extra-Large"
    } else if i == 4 {
        "Thirsty"
    } else if i == 5 {
        "Alluring"
    } else if i == 6 {
        "Bewildered"
    } else if i == 7 {
        "Steadfast"
    } else if i == 8 {
        "Rotund"
    } else if i == 9 {
        "Unsightly"
    } else if i == 10 {
        "Swanky"
    } else if i == 11 {
        "Majestic"
    } else if i == 12 {
        "Torpid"
    } else if i == 13 {
        "Capricious"
    } else if i == 14 {
        "Vacuous"
    } else {
        "Exclusive"
    }
}

/// The occupation at position `i` of the name list.
pub open spec fn occupation(i: int) -> Seq<char> {
    if i == 0 {
        "Vendor"@
    } else if i == 1 {
        "Dealer"@
    } else if i == 2 {
        "Merchant"@
    } else if i == 3 {
        "Hawker"@
    } else if i == 4 {
        "Peddler"@
    } else if i == 5 {
        "Huckster"@
    } else if i == 6 {
        "Clerk"@
    } else if i == 7 {
        "Salesperson"@
    } else if i == 8 {
        "Trader"@
    } else if i == 9 {
        "Agent"@
    } else if i == 10 {
        "Chef"@
    } else if i == 11 {
        "Agriculturalist"@
    } else if i == 12 {
        "Pusher"@
    } else if i == 13 {
        "Capitalist"@
    } else if i == 14 {
        "Suspect"@
    } else {
        "Seal Clubber"@
    }
}

fn occupation_text(i: usize) -> (r: &'static str)
    requires
        i < OCCUPATION_COUNT,
    ensures
        r@ == occupation(i as int),
{
    if i == 0 {
        "Vendor"
    } else if i == 1 {
        "Dealer"
    } else if i == 2 {
        "Merchant"
    } else if i == 3 {
        "Hawker"
    } else if i == 4 {
        "Peddler"
    } else if i == 5 {
        "Huckster"
    } else if i == 6 {
        "Clerk"
    } else if i == 7 {
        "Salesperson"
    } else if i == 8 {
        "Trader"
    } else if i == 9 {
        "Agent"
    } else if i == 10 {
        "Chef"
    } else if i == 11 {
        "Agriculturalist"
    } else if i == 12 {
        "Pusher"
    } else if i == 13 {
        "Capitalist"
    } else if i == 14 {
        "Suspect"
    } else {
        "Seal Clubber"
    }
}

/// The catchphrase at position `i`.
pub open spec fn catchphrase(i: int) -> Seq<char> {
    if i == 0 {
        "Best prices this side of the http"@
    } else if i == 1 {
        "1-800-bits4bytes"@
    } else if i == 2 {
        "Your favorite fiscal fenagler!"@
    } else if i == 3 {
        "Friendly neighborhood objectivism-man"@
    } else if i == 4 {
        "My manager \"produces\" value"@
    } else if i == 5 {
        "Great sales for the highest bidder!"@
    } else if i == 6 {
        "Being dead inside makes you more aerodynamic!"@
    } else if i == 7 {
        "Ask not what your vendor can sell to you, ask what you can buy from your vendor!"@
    } else if i == 8 {
        "Buy, or buy not, there is no haggle."@
    } else if i == 9 {
        "Life is a box of types"@
    } else if i == 10 {
        "This is exactly how the dark web works"@
    } else {
        "Imagine how much easier this would be if we had healthcare"@
    }
}

fn catchphrase_text(i: usize) -> (r: &'static str)
    requires
        i < CATCHPHRASE_COUNT,
    ensures
        r@ == catchphrase(i as int),
{
    if i == 0 {
        "Best prices this side of the http"
    } else if i == 1 {
        "1-800-bits4bytes"
    } else if i == 2 {
        "Your favorite fiscal fenagler!"
    } else if i == 3 {
        "Friendly neighborhood objectivism-man"
    } else if i == 4 {
        "My manager \"produces\" value"
    } else if i == 5 {
        "Great sales for the highest bidder!"
    } else if i == 6 {
        "Being dead inside makes you more aerodynamic!"
    } else if i == 7 {
        "Ask not what your vendor can sell to you, ask what you can buy from your vendor!"
    } else if i == 8 {
        "Buy, or buy not, there is no haggle."
    } else if i == 9 {
        "Life is a box of types"
    } else if i == 10 {
        "This is exactly how the dark web works"
    } else {
        "Imagine how much easier this would be if we had healthcare"
    }
}

/// A vendor name made of a random adjective and a random occupation.
pub fn name_generator() -> (r: String)
    ensures
        exists|i: int, j: int|
            0 <= i < ADJECTIVE_COUNT && 0 <= j < OCCUPATION_COUNT && r@ == adjective(i) + " "@
                + occupation(j),
{
    let i = crate::random::random_in_range(0, ADJECTIVE_COUNT);
    let j = crate::random::random_in_range(0, OCCUPATION_COUNT);
    let mut r = adjective_text(i).to_owned();
    r.append(" ");
    r.append(occupation_text(j));
    r
}

/// A catchphrase picked at random.
pub fn catchphrase_generator() -> (r: String)
    ensures
        exists|i: int| 0 <= i < CATCHPHRASE_COUNT && r@ == catchphrase(i),
{
    let i = crate::random::random_in_range(0, CATCHPHRASE_COUNT);
    catchphrase_text(i).to_owned()
}

} // verus!

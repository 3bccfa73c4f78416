//! Subscriber records as the platform reports them, and the paid predicate
//! that is the single source of truth for access.
//!
//! Monetary amounts are held in minor currency units, so that the paid test
//! is an exact integer comparison. Timestamps are Unix seconds.

use vstd::prelude::*;
use vstd::string::StringExecFns;

verus! {

/// A subscription tier, read-only, as the platform describes it.
pub struct SubscriptionLevel {
    pub created_at: u64,
    /// Price per currency code, in minor units.
    pub currency_prices: Vec<(String, u64)>,
    pub deleted: bool,
    pub id: u64,
    pub is_archived: bool,
    pub name: String,
    pub owner_id: u64,
    /// Price in minor units.
    pub price: u64,
}

/// The short form of a subscriber record, as the search endpoint returns it.
pub struct BasicSubscriber {
    pub avatar_url: String,
    pub email: String,
    pub has_avatar: bool,
    pub id: u64,
    pub name: String,
}

/// A full subscriber record, as the batch endpoint returns it.
pub struct Subscriber {
    pub can_write: bool,
    pub is_black_listed: bool,
    pub level: SubscriptionLevel,
    /// Unix seconds of the subscription payment time.
    pub on_time: u64,
    /// Total payments, in minor units.
    pub payments: u64,
    /// Current price of the subscription, in minor units.
    pub price: u64,
    pub subscribed: bool,
    pub basic_info: BasicSubscriber,
}

/// Failure of a subscription-platform operation. The decision logic treats
/// every variant alike — fail closed — but callers see which layer failed.
#[derive(Clone, Copy, Debug, PartialEq, Eq, Structural)]
pub enum ApiError {
    /// The network failed or the call timed out.
    Transport,
    /// The provider rejected the attached token, even after a refresh.
    Unauthorized,
    /// The response did not have the promised shape.
    Malformed,
}

/// The paid predicate: a subscriber has access exactly when they are
/// subscribed and the subscription costs something.
pub open spec fn spec_is_paid(s: Subscriber) -> bool {
    s.subscribed && s.price > 0
}

impl Subscriber {
    /// True iff `subscribed` and `price > 0`; false for every other
    /// combination, including a free subscription (`subscribed` with price 0).
    pub fn is_paid(&self) -> (r: bool)
        ensures
            r == spec_is_paid(*self),
    {
        self.subscribed && self.price > 0
    }
}

/// The sort key of a batch query. The platform's default is `on_time`.
pub struct SortBy(pub String);

impl Default for SortBy {
    fn default() -> (r: Self)
        ensures
            r.0@ == "on_time"@,
    {
        SortBy(String::from_str("on_time"))
    }
}

/// The sort order of a batch query. The platform's default is `gt`.
pub struct Order(pub String);

impl Default for Order {
    fn default() -> (r: Self)
        ensures
            r.0@ == "gt"@,
    {
        Order(String::from_str("gt"))
    }
}

/// The decimal digit characters of `n`, most significant first.
pub open spec fn dec_digits(n: nat) -> Seq<char>
    decreases n,
{
    if n < 10 {
        seq![digit_char(n)]
    } else {
        dec_digits(n / 10).push(digit_char(n % 10))
    }
}

/// The character of one decimal digit.
pub open spec fn digit_char(d: nat) -> char {
    if d == 0 {
        '0'
    } else if d == 1 {
        '1'
    } else if d == 2 {
        '2'
    } else if d == 3 {
        '3'
    } else if d == 4 {
        '4'
    } else if d == 5 {
        '5'
    } else if d == 6 {
        '6'
    } else if d == 7 {
        '7'
    } else if d == 8 {
        '8'
    } else {
        '9'
    }
}

/// The ids written in decimal and joined with single commas.
pub open spec fn comma_joined(ids: Seq<u64>) -> Seq<char>
    decreases ids.len(),
{
    if ids.len() == 0 {
        Seq::empty()
    } else if ids.len() == 1 {
        dec_digits(ids[0] as nat)
    } else {
        comma_joined(ids.drop_last()) + seq![','] + dec_digits(ids.last() as nat)
    }
}

fn digit_char_exec(d: u64) -> (r: char)
    requires
        d < 10,
    ensures
        r == digit_char(d as nat),
{
    if d == 0 {
        '0'
    } else if d == 1 {
        '1'
    } else if d == 2 {
        '2'
    } else if d == 3 {
        '3'
    } else if d == 4 {
        '4'
    } else if d == 5 {
        '5'
    } else if d == 6 {
        '6'
    } else if d == 7 {
        '7'
    } else if d == 8 {
        '8'
    } else {
        '9'
    }
}

/// Append the decimal digits of `n` to `out`.
fn push_dec_digits(n: u64, out: &mut Vec<char>)
    ensures
        final(out)@ == old(out)@ + dec_digits(n as nat),
{
    let mut digits: Vec<char> = Vec::new();
    let mut x: u64 = n;
    let d0 = digit_char_exec(x % 10);
    digits.insert(0, d0);
    proof {
        assert(digits@ =~= seq![digit_char((x % 10) as nat)]);
    }
    x = x / 10;
    while x > 0
        invariant
            dec_digits(n as nat) == if x > 0 {
                dec_digits(x as nat) + digits@
            } else {
                digits@
            },
        decreases x,
    {
        let d = digit_char_exec(x % 10);
        let ghost pre = digits@;
        digits.insert(0, d);
        proof {
            assert(digits@ =~= seq![digit_char((x % 10) as nat)] + pre);
            if x >= 10 {
                assert(dec_digits(x as nat) == dec_digits((x / 10) as nat) + seq![
                    digit_char((x % 10) as nat),
                ]);
            } else {
                assert(dec_digits(x as nat) =~= seq![digit_char((x % 10) as nat)]);
            }
        }
        x = x / 10;
    }
    out.append(&mut digits);
}

/// Builds a `String` from a vector of characters.
///
/// Relies on `String::from_iter` (through `collect`): the resulting string
/// holds exactly the given characters, in order.
#[verifier::external_body]
fn chars_to_string(v: &Vec<char>) -> (r: String)
    ensures
        r@ == v@,
{
    v.iter().collect()
}

/// The id list of a batch query, sent as one comma-joined parameter.
pub struct SubscribersVec(pub Vec<u64>);

impl From<Vec<u64>> for SubscribersVec {
    fn from(value: Vec<u64>) -> (r: Self) {
        SubscribersVec(value)
    }
}

impl vstd::std_specs::convert::FromSpecImpl<Vec<u64>> for SubscribersVec {
    open spec fn obeys_from_spec() -> bool {
        true
    }

    open spec fn from_spec(value: Vec<u64>) -> Self {
        SubscribersVec(value)
    }
}

impl SubscribersVec {
    /// The value of the `user_ids` query parameter: the ids in decimal,
    /// joined with single commas.
    pub fn query_value(&self) -> (r: String)
        ensures
            r@ == comma_joined(self.0@),
    {
        let mut chars: Vec<char> = Vec::new();
        let n = self.0.len();
        let mut i: usize = 0;
        while i < n
            invariant
                i <= n,
                n == self.0.len(),
                chars@ == comma_joined(self.0@.subrange(0, i as int)),
            decreases n - i,
        {
            let ghost pre = chars@;
            if i > 0 {
                chars.push(',');
            }
            push_dec_digits(self.0[i], &mut chars);
            proof {
                let full = self.0@.subrange(0, i + 1 as int);
                assert(full.drop_last() =~= self.0@.subrange(0, i as int));
                assert(full.last() == self.0@[i as int]);
                if i == 0 {
                    assert(chars@ =~= comma_joined(full));
                } else {
                    assert(chars@ =~= comma_joined(full.drop_last()) + seq![','] + dec_digits(
                        full.last() as nat,
                    ));
                }
            }
            i = i + 1;
        }
        proof {
            assert(self.0@.subrange(0, n as int) =~= self.0@);
        }
        chars_to_string(&chars)
    }
}

/// A batched subscriber lookup: which ids, how sorted, and which page.
pub struct SubscribersRequest {
    pub sort_by: SortBy,
    pub limit: u32,
    pub offset: Option<u32>,
    pub order: Order,
    pub user_ids: SubscribersVec,
}

/// One page of a batched lookup. The pagination fields come from the
/// provider and are passed through unmodified.
pub struct SubscribersResponse {
    pub data: Vec<Subscriber>,
    pub limit: u32,
    pub offset: u32,
    pub total: u32,
}

/// A search by free-text chunk, typically an email.
pub struct SearchRequest {
    pub chunk: String,
}

/// What a search returns: zero, one or several candidates sharing the chunk.
pub struct SearchResponse {
    pub data: Vec<BasicSubscriber>,
}

} // verus!

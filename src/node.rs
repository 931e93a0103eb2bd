use vstd::prelude::*;
use crate::blockchain::{is_fresh, Blockchain};
use crate::config::Config;
use crate::encoding::{digit_str, hex_char};
use crate::random::random_below;

verus! {

/// Number of random base-16 digits in a node identifier.
pub const ID_DIGITS: usize = 4;

/// Nanoseconds in one second.
pub const NANOS_PER_SECOND: u128 = 1_000_000_000;

/// A mining node: an identifier and the chain it grows.
pub struct Node {
    pub id: String,
    pub blockchain: Blockchain,
}

/// The fixed start of every node identifier.
pub open spec fn id_prefix() -> Seq<char> {
    seq!['n', 'o', 'd', 'e', '-']
}

/// `s` is `node-` followed by four lower-case base-16 digits.
pub open spec fn is_node_id(s: Seq<char>) -> bool {
    &&& s.len() == id_prefix().len() + ID_DIGITS
    &&& s.take(id_prefix().len() as int) == id_prefix()
    &&& forall|i: int|
        id_prefix().len() <= i < s.len() ==> (('0' <= #[trigger] s[i] && s[i] <= '9') || ('a'
            <= s[i] && s[i] <= 'f'))
}

/// Four values, each a base-16 digit.
pub open spec fn is_id_digits(digits: Seq<u64>) -> bool {
    &&& digits.len() == ID_DIGITS
    &&& forall|i: int| 0 <= i < digits.len() ==> #[trigger] digits[i] < 16
}

/// The identifier written with `digits`: `node-`, then each digit in base 16.
pub open spec fn node_id_of(digits: Seq<u64>) -> Seq<char> {
    id_prefix() + Seq::new(digits.len(), |i: int| hex_char(digits[i] as nat))
}

/// Writes the identifier of four base-16 digits.
pub fn node_id_from_digits(digits: &Vec<u64>) -> (r: String)
    requires
        is_id_digits(digits@),
    ensures
        r@ == node_id_of(digits@),
        is_node_id(r@),
{
    let mut id = String::from_str("node-");
    proof {
        reveal_strlit("node-");
    }
    assert(id@ =~= id_prefix());
    let mut i: usize = 0;
    while i < ID_DIGITS
        invariant
            i <= ID_DIGITS,
            is_id_digits(digits@),
            id@ =~= id_prefix() + Seq::new(i as nat, |j: int| hex_char(digits@[j] as nat)),
        decreases ID_DIGITS - i,
    {
        id.append(digit_str(digits[i]));
        i = i + 1;
    }
    assert(id@.take(id_prefix().len() as int) =~= id_prefix());
    assert forall|j: int| id_prefix().len() <= j < id@.len() implies (('0' <= #[trigger] id@[j]
        && id@[j] <= '9') || ('a' <= id@[j] && id@[j] <= 'f')) by {
        assert(id@[j] == hex_char(digits@[j - id_prefix().len()] as nat));
    }
    id
}

/// How long a round that has run `elapsed_nanos` still waits so that it
/// lasts `delay_seconds`: the difference, or nothing once it has run longer.
pub open spec fn pacing_rest(delay_seconds: u64, elapsed_nanos: u128) -> int {
    let delay = delay_seconds * NANOS_PER_SECOND;
    if elapsed_nanos < delay {
        delay - elapsed_nanos
    } else {
        0
    }
}

impl Node {
    /// A node with a random identifier and a fresh chain under `config`.
    pub fn new(config: Config) -> (r: Node)
        ensures
            is_node_id(r.id@),
            is_fresh(r.blockchain),
            r.blockchain.config == config,
            r.blockchain.wf(),
    {
        let id = Self::generate_id();
        Node { id, blockchain: Blockchain::new(config) }
    }

    /// A random identifier such as `node-a3f2`; two of them may coincide.
    pub fn generate_id() -> (r: String)
        ensures
            is_node_id(r@),
            exists|digits: Seq<u64>| is_id_digits(digits) && r@ == #[trigger] node_id_of(digits),
    {
        let mut digits: Vec<u64> = Vec::new();
        let mut i: usize = 0;
        while i < ID_DIGITS
            invariant
                i <= ID_DIGITS,
                digits@.len() == i,
                forall|j: int| 0 <= j < digits@.len() ==> #[trigger] digits@[j] < 16,
            decreases ID_DIGITS - i,
        {
            digits.push(random_below(16));
            i = i + 1;
        }
        node_id_from_digits(&digits)
    }

    /// The rest of the pacing delay of a round that has run `elapsed_nanos`.
    pub fn remaining_delay(&self, elapsed_nanos: u128) -> (r: u128)
        ensures
            r as int == pacing_rest(self.blockchain.config.delay_seconds, elapsed_nanos),
    {
        let delay = self.blockchain.config.delay_seconds as u128 * NANOS_PER_SECOND;
        if elapsed_nanos < delay {
            delay - elapsed_nanos
        } else {
            0
        }
    }
}

} // verus!

//! Transfers, net flows and the events that the AML detectors report.
use vstd::prelude::*;

verus! {

/// The TRON "black hole" address: transfers from it mint, transfers to it burn.
pub const ZERO_ADDRESS: &'static str = "T9yD14Nj9j7xAB4dbGeiX9h8unkKHxuWwb";

/// The characters of [`ZERO_ADDRESS`].
pub open spec fn zero_address() -> Seq<char> {
    ZERO_ADDRESS@
}

/// One token movement inside a transaction.
#[derive(Debug, Clone)]
pub struct SimpleTransfer {
    pub token: String,
    pub from: String,
    pub to: String,
    pub amount: u128,
}

/// The net change of one address's balance in one token.
#[derive(Debug, Clone)]
pub struct NetFlow {
    pub address: String,
    pub token: String,
    pub delta: i128,
}

/// A pattern found in a set of transfers.
#[derive(Debug, Clone)]
pub enum AmlEvent {
    Swap { user: String, token_in: String, token_out: String },
    BridgeIn { user: String, token: String },
    BridgeOut { user: String, token: String },
    Mint { user: String, token: String },
    Burn { user: String, token: String },
    LiquidityAdd { user: String, lp_token: String, sent_tokens: Vec<String> },
    LiquidityRemove { user: String, lp_token: String, received_tokens: Vec<String> },
}

/// The net change of one token for an address, inside a [`FlowMap`].
#[derive(Debug, Clone)]
pub struct TokenDelta {
    pub token: String,
    pub delta: i128,
}

/// All net token changes of one address, inside a [`FlowMap`].
#[derive(Debug, Clone)]
pub struct AddressFlows {
    pub address: String,
    pub tokens: Vec<TokenDelta>,
}

/// Net flows per address and token: each address appears once, and each
/// token appears once under its address.
#[derive(Debug, Clone)]
pub struct FlowMap {
    pub entries: Vec<AddressFlows>,
}

impl FlowMap {
    pub open spec fn len(self) -> int {
        self.entries@.len() as int
    }

    pub open spec fn addr(self, i: int) -> Seq<char> {
        self.entries@[i].address@
    }

    pub open spec fn n_tokens(self, i: int) -> int {
        self.entries@[i].tokens@.len() as int
    }

    pub open spec fn tok(self, i: int, j: int) -> Seq<char> {
        self.entries@[i].tokens@[j].token@
    }

    pub open spec fn delta(self, i: int, j: int) -> int {
        self.entries@[i].tokens@[j].delta as int
    }

    pub open spec fn valid_index(self, i: int, j: int) -> bool {
        0 <= i < self.len() && 0 <= j < self.n_tokens(i)
    }

    /// Addresses are distinct, and tokens are distinct under each address.
    pub open spec fn keys_distinct(self) -> bool {
        &&& forall|i1: int, i2: int|
            #![trigger self.addr(i1), self.addr(i2)]
            0 <= i1 < self.len() && 0 <= i2 < self.len() && i1 != i2 ==> self.addr(i1)
                != self.addr(i2)
        &&& forall|i: int, j1: int, j2: int|
            #![trigger self.tok(i, j1), self.tok(i, j2)]
            self.valid_index(i, j1) && self.valid_index(i, j2) && j1 != j2 ==> self.tok(i, j1)
                != self.tok(i, j2)
    }

    /// Distinct keys, and no address listed without a token (as the net
    /// flows of a transfer set are).
    pub open spec fn wf(self) -> bool {
        &&& self.keys_distinct()
        &&& forall|i: int| 0 <= i < self.len() ==> #[trigger] self.n_tokens(i) > 0
    }

    /// The map has an entry for token `tok` under address `a`.
    pub open spec fn has_key(self, a: Seq<char>, tok: Seq<char>) -> bool {
        exists|i: int, j: int|
            #![trigger self.tok(i, j)]
            self.valid_index(i, j) && self.addr(i) == a && self.tok(i, j) == tok
    }
}

} // verus!

//! The closed set of supported networks and their wire names.
//!
//! Each network has one canonical wire string, used in both directions; the
//! Polygon network's wire string is `matic`.  The bare-string reader (used
//! inside item identifiers) accepts every wire name except `goerli`, while
//! the object reader (used for `chain` fields, `{"name": ...}`) accepts
//! `goerli` as well — mirroring the two inbound paths of the feed.  Unknown
//! names are refused rather than defaulted: wrong chain attribution on
//! financial events would be a correctness hazard.

use vstd::prelude::*;

use crate::json::{ascii_u8, as_str, get_field, str_to_bytes, Json, JsonV, json_field, json_str};

verus! {

broadcast use vstd::std_specs::vec::group_vec_axioms, vstd::seq::group_seq_axioms, vstd::string::group_string_axioms;

/// A supported network.
#[derive(PartialEq, Eq, Structural, Clone, Copy, Debug, Hash)]
pub enum Chain {
    Avalanche,
    Base,
    Bsc,
    Ethereum,
    Optimism,
    Arbitrum,
    ArbitrumNova,
    Polygon,
    Klaytn,
    Solana,
    Goerli,
    Mumbai,
    Baobab,
    Zora,
}

impl DeepView for Chain {
    type V = Chain;

    open spec fn deep_view(&self) -> Chain {
        *self
    }
}

/// The canonical wire name of each network.
pub open spec fn wire_name_of(c: Chain) -> Seq<u8> {
    match c {
        Chain::Avalanche => ascii_u8("avalanche"@),
        Chain::Base => ascii_u8("base"@),
        Chain::Bsc => ascii_u8("bsc"@),
        Chain::Ethereum => ascii_u8("ethereum"@),
        Chain::Optimism => ascii_u8("optimism"@),
        Chain::Arbitrum => ascii_u8("arbitrum"@),
        Chain::ArbitrumNova => ascii_u8("arbitrum_nova"@),
        Chain::Polygon => ascii_u8("matic"@),
        Chain::Klaytn => ascii_u8("klaytn"@),
        Chain::Solana => ascii_u8("solana"@),
        Chain::Goerli => ascii_u8("goerli"@),
        Chain::Mumbai => ascii_u8("mumbai"@),
        Chain::Baobab => ascii_u8("baobab"@),
        Chain::Zora => ascii_u8("zora"@),
    }
}

/// The network a bare wire name denotes.  `goerli` is not in this set.
pub open spec fn chain_of_wire(s: Seq<u8>) -> Option<Chain> {
    if s == ascii_u8("avalanche"@) {
        Some(Chain::Avalanche)
    } else if s == ascii_u8("base"@) {
        Some(Chain::Base)
    } else if s == ascii_u8("bsc"@) {
        Some(Chain::Bsc)
    } else if s == ascii_u8("ethereum"@) {
        Some(Chain::Ethereum)
    } else if s == ascii_u8("optimism"@) {
        Some(Chain::Optimism)
    } else if s == ascii_u8("arbitrum"@) {
        Some(Chain::Arbitrum)
    } else if s == ascii_u8("arbitrum_nova"@) {
        Some(Chain::ArbitrumNova)
    } else if s == ascii_u8("matic"@) {
        Some(Chain::Polygon)
    } else if s == ascii_u8("klaytn"@) {
        Some(Chain::Klaytn)
    } else if s == ascii_u8("solana"@) {
        Some(Chain::Solana)
    } else if s == ascii_u8("mumbai"@) {
        Some(Chain::Mumbai)
    } else if s == ascii_u8("baobab"@) {
        Some(Chain::Baobab)
    } else if s == ascii_u8("zora"@) {
        Some(Chain::Zora)
    } else {
        None
    }
}

/// The network a `{"name": ...}` object denotes; this path accepts
/// `goerli` too.
pub open spec fn chain_of_json(v: JsonV) -> Option<Chain> {
    match get_field(v, ascii_u8("name"@)) {
        Some(f) => match as_str(f) {
            Some(s) => {
                if s == ascii_u8("goerli"@) {
                    Some(Chain::Goerli)
                } else {
                    chain_of_wire(s)
                }
            },
            None => None,
        },
        None => None,
    }
}

/// The canonical object shape for a network.
pub open spec fn chain_json_of(c: Chain) -> JsonV {
    JsonV::Obj(seq![(ascii_u8("name"@), JsonV::Str(wire_name_of(c)))])
}

/// Whether `s` spells the ASCII string `name`.
fn is_name(s: &Vec<u8>, name: &str) -> (r: bool)
    requires
        name.is_ascii(),
    ensures
        r == (s@ == ascii_u8(name@)),
{
    let kb = str_to_bytes(name);
    let r = s == &kb;
    proof {
        if r {
            assert(s@ =~= kb@);
        }
        if s@ == kb@ {
            assert forall|i: int| 0 <= i < s@.len() implies s@[i] == kb@[i] by {}
            assert(r);
        }
    }
    r
}

impl Chain {
    /// Reads a bare wire name, as it stands inside an item identifier.
    pub fn from_wire(s: &Vec<u8>) -> (r: Option<Chain>)
        ensures
            r == chain_of_wire(s@),
    {
        proof {
            reveal_strlit("avalanche");
            reveal_strlit("base");
            reveal_strlit("bsc");
            reveal_strlit("ethereum");
            reveal_strlit("optimism");
            reveal_strlit("arbitrum");
            reveal_strlit("arbitrum_nova");
            reveal_strlit("matic");
            reveal_strlit("klaytn");
            reveal_strlit("solana");
            reveal_strlit("mumbai");
            reveal_strlit("baobab");
            reveal_strlit("zora");
        }
        if is_name(s, "avalanche") {
            Some(Chain::Avalanche)
        } else if is_name(s, "base") {
            Some(Chain::Base)
        } else if is_name(s, "bsc") {
            Some(Chain::Bsc)
        } else if is_name(s, "ethereum") {
            Some(Chain::Ethereum)
        } else if is_name(s, "optimism") {
            Some(Chain::Optimism)
        } else if is_name(s, "arbitrum") {
            Some(Chain::Arbitrum)
        } else if is_name(s, "arbitrum_nova") {
            Some(Chain::ArbitrumNova)
        } else if is_name(s, "matic") {
            Some(Chain::Polygon)
        } else if is_name(s, "klaytn") {
            Some(Chain::Klaytn)
        } else if is_name(s, "solana") {
            Some(Chain::Solana)
        } else if is_name(s, "mumbai") {
            Some(Chain::Mumbai)
        } else if is_name(s, "baobab") {
            Some(Chain::Baobab)
        } else if is_name(s, "zora") {
            Some(Chain::Zora)
        } else {
            None
        }
    }

    /// The canonical wire name, `goerli` included.
    pub fn wire_name(&self) -> (r: Vec<u8>)
        ensures
            r@ == wire_name_of(*self),
    {
        match self {
            Chain::Avalanche => {
                proof {
                    reveal_strlit("avalanche");
                }
                str_to_bytes("avalanche")
            },
            Chain::Base => {
                proof {
                    reveal_strlit("base");
                }
                str_to_bytes("base")
            },
            Chain::Bsc => {
                proof {
                    reveal_strlit("bsc");
                }
                str_to_bytes("bsc")
            },
            Chain::Ethereum => {
                proof {
                    reveal_strlit("ethereum");
                }
                str_to_bytes("ethereum")
            },
            Chain::Optimism => {
                proof {
                    reveal_strlit("optimism");
                }
                str_to_bytes("optimism")
            },
            Chain::Arbitrum => {
                proof {
                    reveal_strlit("arbitrum");
                }
                str_to_bytes("arbitrum")
            },
            Chain::ArbitrumNova => {
                proof {
                    reveal_strlit("arbitrum_nova");
                }
                str_to_bytes("arbitrum_nova")
            },
            Chain::Polygon => {
                proof {
                    reveal_strlit("matic");
                }
                str_to_bytes("matic")
            },
            Chain::Klaytn => {
                proof {
                    reveal_strlit("klaytn");
                }
                str_to_bytes("klaytn")
            },
            Chain::Solana => {
                proof {
                    reveal_strlit("solana");
                }
                str_to_bytes("solana")
            },
            Chain::Goerli => {
                proof {
                    reveal_strlit("goerli");
                }
                str_to_bytes("goerli")
            },
            Chain::Mumbai => {
                proof {
                    reveal_strlit("mumbai");
                }
                str_to_bytes("mumbai")
            },
            Chain::Baobab => {
                proof {
                    reveal_strlit("baobab");
                }
                str_to_bytes("baobab")
            },
            Chain::Zora => {
                proof {
                    reveal_strlit("zora");
                }
                str_to_bytes("zora")
            },
        }
    }

    /// Reads the `{"name": ...}` object shape.
    pub fn decode(v: &Json) -> (r: Option<Chain>)
        ensures
            r == chain_of_json(v@),
    {
        proof {
            reveal_strlit("name");
            reveal_strlit("goerli");
        }
        match json_field(v, "name") {
            Some(f) => match json_str(f) {
                Some(s) => {
                    if is_name(s, "goerli") {
                        Some(Chain::Goerli)
                    } else {
                        Chain::from_wire(s)
                    }
                },
                None => None,
            },
            None => None,
        }
    }

    /// Renders the network in the `{"name": ...}` object shape.
    pub fn encode(&self) -> (r: Json)
        ensures
            r@ == chain_json_of(*self),
    {
        proof {
            reveal_strlit("name");
        }
        let name = self.wire_name();
        let mut members: Vec<(Vec<u8>, Json)> = Vec::new();
        members.push((str_to_bytes("name"), Json::Str(name)));
        proof {
            assert(crate::json::view_members(members@.subrange(1, 1)) =~= Seq::<
                (Seq<u8>, JsonV),
            >::empty());
            assert(members@[0].0@ == ascii_u8("name"@));
            assert(crate::json::view_json(members@[0].1) == JsonV::Str(wire_name_of(*self)));
            assert(crate::json::view_members(members@) =~~= seq![
                (ascii_u8("name"@), JsonV::Str(wire_name_of(*self))),
            ]);
        }
        Json::Obj(members)
    }
}

/// The wire name of every network except Goerli reads back as that network
/// on the bare-string path, and `goerli` reads back as nothing there; the
/// object path reads every wire name back, Goerli's included.
pub proof fn lemma_chain_round_trip(c: Chain)
    ensures
        c != Chain::Goerli ==> chain_of_wire(wire_name_of(c)) == Some(c),
        chain_of_wire(wire_name_of(Chain::Goerli)) is None,
        chain_of_json(chain_json_of(c)) == Some(c),
{
    reveal_strlit("avalanche");
    reveal_strlit("base");
    reveal_strlit("bsc");
    reveal_strlit("ethereum");
    reveal_strlit("optimism");
    reveal_strlit("arbitrum");
    reveal_strlit("arbitrum_nova");
    reveal_strlit("matic");
    reveal_strlit("klaytn");
    reveal_strlit("solana");
    reveal_strlit("goerli");
    reveal_strlit("mumbai");
    reveal_strlit("baobab");
    reveal_strlit("zora");
    reveal_strlit("name");
    assert(ascii_u8("avalanche"@).len() == 9);
    assert(ascii_u8("base"@).len() == 4);
    assert(ascii_u8("bsc"@).len() == 3);
    assert(ascii_u8("ethereum"@).len() == 8);
    assert(ascii_u8("optimism"@).len() == 8);
    assert(ascii_u8("arbitrum"@).len() == 8);
    assert(ascii_u8("arbitrum_nova"@).len() == 13);
    assert(ascii_u8("matic"@).len() == 5);
    assert(ascii_u8("klaytn"@).len() == 6);
    assert(ascii_u8("solana"@).len() == 6);
    assert(ascii_u8("goerli"@).len() == 6);
    assert(ascii_u8("mumbai"@).len() == 6);
    assert(ascii_u8("baobab"@).len() == 6);
    assert(ascii_u8("zora"@).len() == 4);
    assert(ascii_u8("avalanche"@)[0] == 'a' as u8);
    assert(ascii_u8("base"@)[0] == 'b' as u8);
    assert(ascii_u8("bsc"@)[0] == 'b' as u8);
    assert(ascii_u8("bsc"@)[1] == 's' as u8);
    assert(ascii_u8("base"@)[1] == 'a' as u8);
    assert(ascii_u8("ethereum"@)[0] == 'e' as u8);
    assert(ascii_u8("optimism"@)[0] == 'o' as u8);
    assert(ascii_u8("arbitrum"@)[0] == 'a' as u8);
    assert(ascii_u8("arbitrum_nova"@)[0] == 'a' as u8);
    assert(ascii_u8("matic"@)[0] == 'm' as u8);
    assert(ascii_u8("klaytn"@)[0] == 'k' as u8);
    assert(ascii_u8("solana"@)[0] == 's' as u8);
    assert(ascii_u8("goerli"@)[0] == 'g' as u8);
    assert(ascii_u8("mumbai"@)[0] == 'm' as u8);
    assert(ascii_u8("baobab"@)[0] == 'b' as u8);
    assert(ascii_u8("zora"@)[0] == 'z' as u8);
    let members = seq![(ascii_u8("name"@), JsonV::Str(wire_name_of(c)))];
    assert(members.subrange(1, 1) =~= Seq::<(Seq<u8>, JsonV)>::empty());
    assert(get_field(chain_json_of(c), ascii_u8("name"@)) == Some(JsonV::Str(wire_name_of(c))));
    match c {
        Chain::Avalanche => assert(chain_of_wire(wire_name_of(c)) == Some(c)),
        Chain::Base => assert(chain_of_wire(wire_name_of(c)) == Some(c)),
        Chain::Bsc => assert(chain_of_wire(wire_name_of(c)) == Some(c)),
        Chain::Ethereum => assert(chain_of_wire(wire_name_of(c)) == Some(c)),
        Chain::Optimism => assert(chain_of_wire(wire_name_of(c)) == Some(c)),
        Chain::Arbitrum => assert(chain_of_wire(wire_name_of(c)) == Some(c)),
        Chain::ArbitrumNova => assert(chain_of_wire(wire_name_of(c)) == Some(c)),
        Chain::Polygon => assert(chain_of_wire(wire_name_of(c)) == Some(c)),
        Chain::Klaytn => assert(chain_of_wire(wire_name_of(c)) == Some(c)),
        Chain::Solana => assert(chain_of_wire(wire_name_of(c)) == Some(c)),
        Chain::Goerli => assert(wire_name_of(c) == ascii_u8("goerli"@)),
        Chain::Mumbai => assert(chain_of_wire(wire_name_of(c)) == Some(c)),
        Chain::Baobab => assert(chain_of_wire(wire_name_of(c)) == Some(c)),
        Chain::Zora => assert(chain_of_wire(wire_name_of(c)) == Some(c)),
    }
}

} // verus!

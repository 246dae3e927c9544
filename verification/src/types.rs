//! The record shapes the engine works on: catalog items, tasks with their
//! objectives and prerequisite relations, ammunition, and per-item price
//! samples.  Each cached type carries a mathematical view and a binary
//! codec, so a value can make the round trip through the cache byte store
//! and come back structurally equal.
//!
//! Fractional columns of the relational store are carried as their IEEE-754
//! bit patterns: the engine never reads those numbers, it only moves them.

use vstd::prelude::*;

use crate::codec::{lemma_concat_parts, Encodable};

verus! {

/// One trader offer an item can be bought from.
#[derive(Clone, Debug)]
pub struct BuyFor {
    pub id: i32,
    pub price: i32,
    pub currency: String,
    pub price_rub: i32,
    pub trader_name: String,
    pub min_trader_level: i32,
    pub buy_limit: i32,
    pub item_id: String,
}

/// The mathematical shape of a `BuyFor`.
pub struct BuyForView {
    pub id: i32,
    pub price: i32,
    pub currency: Seq<char>,
    pub price_rub: i32,
    pub trader_name: Seq<char>,
    pub min_trader_level: i32,
    pub buy_limit: i32,
    pub item_id: Seq<char>,
}

impl DeepView for BuyFor {
    type V = BuyForView;

    open spec fn deep_view(&self) -> BuyForView {
        BuyForView {
            id: self.id.deep_view(),
            price: self.price.deep_view(),
            currency: self.currency.deep_view(),
            price_rub: self.price_rub.deep_view(),
            trader_name: self.trader_name.deep_view(),
            min_trader_level: self.min_trader_level.deep_view(),
            buy_limit: self.buy_limit.deep_view(),
            item_id: self.item_id.deep_view(),
        }
    }
}

impl Encodable for BuyFor {
    open spec fn enc_of(v: BuyForView) -> Seq<u8> {
        <i32 as Encodable>::enc_of(v.id)
            + (<i32 as Encodable>::enc_of(v.price)
            + (<String as Encodable>::enc_of(v.currency)
            + (<i32 as Encodable>::enc_of(v.price_rub)
            + (<String as Encodable>::enc_of(v.trader_name)
            + (<i32 as Encodable>::enc_of(v.min_trader_level)
            + (<i32 as Encodable>::enc_of(v.buy_limit)
            + (<String as Encodable>::enc_of(v.item_id))))))))
    }

    open spec fn enc_wf(v: BuyForView) -> bool {
        &&& <i32 as Encodable>::enc_wf(v.id)
        &&& <i32 as Encodable>::enc_wf(v.price)
        &&& <String as Encodable>::enc_wf(v.currency)
        &&& <i32 as Encodable>::enc_wf(v.price_rub)
        &&& <String as Encodable>::enc_wf(v.trader_name)
        &&& <i32 as Encodable>::enc_wf(v.min_trader_level)
        &&& <i32 as Encodable>::enc_wf(v.buy_limit)
        &&& <String as Encodable>::enc_wf(v.item_id)
    }

    open spec fn dec_at(b: Seq<u8>, pos: int) -> Option<(BuyForView, int)> {
        match <i32 as Encodable>::dec_at(b, pos) {
            None => None,
            Some((x0, p0)) => {
                match <i32 as Encodable>::dec_at(b, p0) {
                    None => None,
                    Some((x1, p1)) => {
                        match <String as Encodable>::dec_at(b, p1) {
                            None => None,
                            Some((x2, p2)) => {
                                match <i32 as Encodable>::dec_at(b, p2) {
                                    None => None,
                                    Some((x3, p3)) => {
                                        match <String as Encodable>::dec_at(b, p3) {
                                            None => None,
                                            Some((x4, p4)) => {
                                                match <i32 as Encodable>::dec_at(b, p4) {
                                                    None => None,
                                                    Some((x5, p5)) => {
                                                        match <i32 as Encodable>::dec_at(b, p5) {
                                                            None => None,
                                                            Some((x6, p6)) => {
                                                                match <String as Encodable>::dec_at(b, p6) {
                                                                    None => None,
                                                                    Some((x7, p7)) => 
                                                                    Some((BuyForView {
                                                                        id: x0,
                                                                        price: x1,
                                                                        currency: x2,
                                                                        price_rub: x3,
                                                                        trader_name: x4,
                                                                        min_trader_level: x5,
                                                                        buy_limit: x6,
                                                                        item_id: x7,
                                                                    }, p7)),
                                                                }
                                                            },
                                                        }
                                                    },
                                                }
                                            },
                                        }
                                    },
                                }
                            },
                        }
                    },
                }
            },
        }
    }

    #[verifier::rlimit(100)]
    proof fn lemma_enc_dec(v: BuyForView, b: Seq<u8>, pos: int) {
        let e0 = <i32 as Encodable>::enc_of(v.id);
        let e1 = <i32 as Encodable>::enc_of(v.price);
        let e2 = <String as Encodable>::enc_of(v.currency);
        let e3 = <i32 as Encodable>::enc_of(v.price_rub);
        let e4 = <String as Encodable>::enc_of(v.trader_name);
        let e5 = <i32 as Encodable>::enc_of(v.min_trader_level);
        let e6 = <i32 as Encodable>::enc_of(v.buy_limit);
        let e7 = <String as Encodable>::enc_of(v.item_id);
        let s7 = e7;
        let s6 = e6 + s7;
        let s5 = e5 + s6;
        let s4 = e4 + s5;
        let s3 = e3 + s4;
        let s2 = e2 + s3;
        let s1 = e1 + s2;
        let s0 = e0 + s1;
        assert(Self::enc_of(v) == s0);
        let p0 = pos + e0.len() as int;
        let p1 = p0 + e1.len() as int;
        let p2 = p1 + e2.len() as int;
        let p3 = p2 + e3.len() as int;
        let p4 = p3 + e4.len() as int;
        let p5 = p4 + e5.len() as int;
        let p6 = p5 + e6.len() as int;
        let p7 = p6 + e7.len() as int;
        lemma_concat_parts(b, pos, e0, s1);
        <i32 as Encodable>::lemma_enc_dec(v.id, b, pos);
        lemma_concat_parts(b, p0, e1, s2);
        <i32 as Encodable>::lemma_enc_dec(v.price, b, p0);
        lemma_concat_parts(b, p1, e2, s3);
        <String as Encodable>::lemma_enc_dec(v.currency, b, p1);
        lemma_concat_parts(b, p2, e3, s4);
        <i32 as Encodable>::lemma_enc_dec(v.price_rub, b, p2);
        lemma_concat_parts(b, p3, e4, s5);
        <String as Encodable>::lemma_enc_dec(v.trader_name, b, p3);
        lemma_concat_parts(b, p4, e5, s6);
        <i32 as Encodable>::lemma_enc_dec(v.min_trader_level, b, p4);
        lemma_concat_parts(b, p5, e6, s7);
        <i32 as Encodable>::lemma_enc_dec(v.buy_limit, b, p5);
        <String as Encodable>::lemma_enc_dec(v.item_id, b, p6);
        assert((BuyForView {
            id: v.id,
            price: v.price,
            currency: v.currency,
            price_rub: v.price_rub,
            trader_name: v.trader_name,
            min_trader_level: v.min_trader_level,
            buy_limit: v.buy_limit,
            item_id: v.item_id,
        }) == v);
        assert(Self::dec_at(b, pos) == Some((v, pos + Self::enc_of(v).len() as int)));
    }

    #[verifier::rlimit(100)]
    fn encode(&self, out: &mut Vec<u8>) {
        let ghost e0 = <i32 as Encodable>::enc_of(self.id.deep_view());
        let ghost e1 = <i32 as Encodable>::enc_of(self.price.deep_view());
        let ghost e2 = <String as Encodable>::enc_of(self.currency.deep_view());
        let ghost e3 = <i32 as Encodable>::enc_of(self.price_rub.deep_view());
        let ghost e4 = <String as Encodable>::enc_of(self.trader_name.deep_view());
        let ghost e5 = <i32 as Encodable>::enc_of(self.min_trader_level.deep_view());
        let ghost e6 = <i32 as Encodable>::enc_of(self.buy_limit.deep_view());
        let ghost e7 = <String as Encodable>::enc_of(self.item_id.deep_view());
        let ghost t7 = e7;
        let ghost t6 = e6 + t7;
        let ghost t5 = e5 + t6;
        let ghost t4 = e4 + t5;
        let ghost t3 = e3 + t4;
        let ghost t2 = e2 + t3;
        let ghost t1 = e1 + t2;
        let ghost t0 = e0 + t1;
        self.id.encode(out);
        let ghost l0 = out@;
        self.price.encode(out);
        let ghost l1 = out@;
        self.currency.encode(out);
        let ghost l2 = out@;
        self.price_rub.encode(out);
        let ghost l3 = out@;
        self.trader_name.encode(out);
        let ghost l4 = out@;
        self.min_trader_level.encode(out);
        let ghost l5 = out@;
        self.buy_limit.encode(out);
        let ghost l6 = out@;
        self.item_id.encode(out);
        proof {
            assert(out@ == l6 + t7);
            assert(out@ =~= l5 + t6) by {
                assert(l6 == l5 + e6);
            }
            assert(out@ =~= l4 + t5) by {
                assert(l5 == l4 + e5);
            }
            assert(out@ =~= l3 + t4) by {
                assert(l4 == l3 + e4);
            }
            assert(out@ =~= l2 + t3) by {
                assert(l3 == l2 + e3);
            }
            assert(out@ =~= l1 + t2) by {
                assert(l2 == l1 + e2);
            }
            assert(out@ =~= l0 + t1) by {
                assert(l1 == l0 + e1);
            }
            assert(out@ =~= old(out)@ + t0) by {
                assert(l0 == old(out)@ + e0);
            }
            assert(final(out)@ == old(out)@ + Self::enc_of(self.deep_view()));
        }
    }

    fn decode(buf: &Vec<u8>, pos: usize) -> (r: Option<(Self, usize)>) {
        let (x0, p0) = match <i32 as Encodable>::decode(buf, pos) {
            None => {
                return None;
            },
            Some(x) => x,
        };
        let (x1, p1) = match <i32 as Encodable>::decode(buf, p0) {
            None => {
                return None;
            },
            Some(x) => x,
        };
        let (x2, p2) = match <String as Encodable>::decode(buf, p1) {
            None => {
                return None;
            },
            Some(x) => x,
        };
        let (x3, p3) = match <i32 as Encodable>::decode(buf, p2) {
            None => {
                return None;
            },
            Some(x) => x,
        };
        let (x4, p4) = match <String as Encodable>::decode(buf, p3) {
            None => {
                return None;
            },
            Some(x) => x,
        };
        let (x5, p5) = match <i32 as Encodable>::decode(buf, p4) {
            None => {
                return None;
            },
            Some(x) => x,
        };
        let (x6, p6) = match <i32 as Encodable>::decode(buf, p5) {
            None => {
                return None;
            },
            Some(x) => x,
        };
        let (x7, p7) = match <String as Encodable>::decode(buf, p6) {
            None => {
                return None;
            },
            Some(x) => x,
        };
        Some((BuyFor {
            id: x0,
            price: x1,
            currency: x2,
            price_rub: x3,
            trader_name: x4,
            min_trader_level: x5,
            buy_limit: x6,
            item_id: x7,
        }, p7))
    }
}

/// One trader an item can be sold to.
#[derive(Clone, Debug)]
pub struct SellFor {
    pub id: i32,
    pub price: i32,
    pub currency: String,
    pub price_rub: i32,
    pub trader_name: String,
    pub found_in_raid_required: bool,
    pub item_id: String,
}

/// The mathematical shape of a `SellFor`.
pub struct SellForView {
    pub id: i32,
    pub price: i32,
    pub currency: Seq<char>,
    pub price_rub: i32,
    pub trader_name: Seq<char>,
    pub found_in_raid_required: bool,
    pub item_id: Seq<char>,
}

impl DeepView for SellFor {
    type V = SellForView;

    open spec fn deep_view(&self) -> SellForView {
        SellForView {
            id: self.id.deep_view(),
            price: self.price.deep_view(),
            currency: self.currency.deep_view(),
            price_rub: self.price_rub.deep_view(),
            trader_name: self.trader_name.deep_view(),
            found_in_raid_required: self.found_in_raid_required.deep_view(),
            item_id: self.item_id.deep_view(),
        }
    }
}

impl Encodable for SellFor {
    open spec fn enc_of(v: SellForView) -> Seq<u8> {
        <i32 as Encodable>::enc_of(v.id)
            + (<i32 as Encodable>::enc_of(v.price)
            + (<String as Encodable>::enc_of(v.currency)
            + (<i32 as Encodable>::enc_of(v.price_rub)
            + (<String as Encodable>::enc_of(v.trader_name)
            + (<bool as Encodable>::enc_of(v.found_in_raid_required)
            + (<String as Encodable>::enc_of(v.item_id)))))))
    }

    open spec fn enc_wf(v: SellForView) -> bool {
        &&& <i32 as Encodable>::enc_wf(v.id)
        &&& <i32 as Encodable>::enc_wf(v.price)
        &&& <String as Encodable>::enc_wf(v.currency)
        &&& <i32 as Encodable>::enc_wf(v.price_rub)
        &&& <String as Encodable>::enc_wf(v.trader_name)
        &&& <bool as Encodable>::enc_wf(v.found_in_raid_required)
        &&& <String as Encodable>::enc_wf(v.item_id)
    }

    open spec fn dec_at(b: Seq<u8>, pos: int) -> Option<(SellForView, int)> {
        match <i32 as Encodable>::dec_at(b, pos) {
            None => None,
            Some((x0, p0)) => {
                match <i32 as Encodable>::dec_at(b, p0) {
                    None => None,
                    Some((x1, p1)) => {
                        match <String as Encodable>::dec_at(b, p1) {
                            None => None,
                            Some((x2, p2)) => {
                                match <i32 as Encodable>::dec_at(b, p2) {
                                    None => None,
                                    Some((x3, p3)) => {
                                        match <String as Encodable>::dec_at(b, p3) {
                                            None => None,
                                            Some((x4, p4)) => {
                                                match <bool as Encodable>::dec_at(b, p4) {
                                                    None => None,
                                                    Some((x5, p5)) => {
                                                        match <String as Encodable>::dec_at(b, p5) {
                                                            None => None,
                                                            Some((x6, p6)) => 
                                                            Some((SellForView {
                                                                id: x0,
                                                                price: x1,
                                                                currency: x2,
                                                                price_rub: x3,
                                                                trader_name: x4,
                                                                found_in_raid_required: x5,
                                                                item_id: x6,
                                                            }, p6)),
                                                        }
                                                    },
                                                }
                                            },
                                        }
                                    },
                                }
                            },
                        }
                    },
                }
            },
        }
    }

    #[verifier::rlimit(100)]
    proof fn lemma_enc_dec(v: SellForView, b: Seq<u8>, pos: int) {
        let e0 = <i32 as Encodable>::enc_of(v.id);
        let e1 = <i32 as Encodable>::enc_of(v.price);
        let e2 = <String as Encodable>::enc_of(v.currency);
        let e3 = <i32 as Encodable>::enc_of(v.price_rub);
        let e4 = <String as Encodable>::enc_of(v.trader_name);
        let e5 = <bool as Encodable>::enc_of(v.found_in_raid_required);
        let e6 = <String as Encodable>::enc_of(v.item_id);
        let s6 = e6;
        let s5 = e5 + s6;
        let s4 = e4 + s5;
        let s3 = e3 + s4;
        let s2 = e2 + s3;
        let s1 = e1 + s2;
        let s0 = e0 + s1;
        assert(Self::enc_of(v) == s0);
        let p0 = pos + e0.len() as int;
        let p1 = p0 + e1.len() as int;
        let p2 = p1 + e2.len() as int;
        let p3 = p2 + e3.len() as int;
        let p4 = p3 + e4.len() as int;
        let p5 = p4 + e5.len() as int;
        let p6 = p5 + e6.len() as int;
        lemma_concat_parts(b, pos, e0, s1);
        <i32 as Encodable>::lemma_enc_dec(v.id, b, pos);
        lemma_concat_parts(b, p0, e1, s2);
        <i32 as Encodable>::lemma_enc_dec(v.price, b, p0);
        lemma_concat_parts(b, p1, e2, s3);
        <String as Encodable>::lemma_enc_dec(v.currency, b, p1);
        lemma_concat_parts(b, p2, e3, s4);
        <i32 as Encodable>::lemma_enc_dec(v.price_rub, b, p2);
        lemma_concat_parts(b, p3, e4, s5);
        <String as Encodable>::lemma_enc_dec(v.trader_name, b, p3);
        lemma_concat_parts(b, p4, e5, s6);
        <bool as Encodable>::lemma_enc_dec(v.found_in_raid_required, b, p4);
        <String as Encodable>::lemma_enc_dec(v.item_id, b, p5);
        assert((SellForView {
            id: v.id,
            price: v.price,
            currency: v.currency,
            price_rub: v.price_rub,
            trader_name: v.trader_name,
            found_in_raid_required: v.found_in_raid_required,
            item_id: v.item_id,
        }) == v);
        assert(Self::dec_at(b, pos) == Some((v, pos + Self::enc_of(v).len() as int)));
    }

    #[verifier::rlimit(100)]
    fn encode(&self, out: &mut Vec<u8>) {
        let ghost e0 = <i32 as Encodable>::enc_of(self.id.deep_view());
        let ghost e1 = <i32 as Encodable>::enc_of(self.price.deep_view());
        let ghost e2 = <String as Encodable>::enc_of(self.currency.deep_view());
        let ghost e3 = <i32 as Encodable>::enc_of(self.price_rub.deep_view());
        let ghost e4 = <String as Encodable>::enc_of(self.trader_name.deep_view());
        let ghost e5 = <bool as Encodable>::enc_of(self.found_in_raid_required.deep_view());
        let ghost e6 = <String as Encodable>::enc_of(self.item_id.deep_view());
        let ghost t6 = e6;
        let ghost t5 = e5 + t6;
        let ghost t4 = e4 + t5;
        let ghost t3 = e3 + t4;
        let ghost t2 = e2 + t3;
        let ghost t1 = e1 + t2;
        let ghost t0 = e0 + t1;
        self.id.encode(out);
        let ghost l0 = out@;
        self.price.encode(out);
        let ghost l1 = out@;
        self.currency.encode(out);
        let ghost l2 = out@;
        self.price_rub.encode(out);
        let ghost l3 = out@;
        self.trader_name.encode(out);
        let ghost l4 = out@;
        self.found_in_raid_required.encode(out);
        let ghost l5 = out@;
        self.item_id.encode(out);
        proof {
            assert(out@ == l5 + t6);
            assert(out@ =~= l4 + t5) by {
                assert(l5 == l4 + e5);
            }
            assert(out@ =~= l3 + t4) by {
                assert(l4 == l3 + e4);
            }
            assert(out@ =~= l2 + t3) by {
                assert(l3 == l2 + e3);
            }
            assert(out@ =~= l1 + t2) by {
                assert(l2 == l1 + e2);
            }
            assert(out@ =~= l0 + t1) by {
                assert(l1 == l0 + e1);
            }
            assert(out@ =~= old(out)@ + t0) by {
                assert(l0 == old(out)@ + e0);
            }
            assert(final(out)@ == old(out)@ + Self::enc_of(self.deep_view()));
        }
    }

    fn decode(buf: &Vec<u8>, pos: usize) -> (r: Option<(Self, usize)>) {
        let (x0, p0) = match <i32 as Encodable>::decode(buf, pos) {
            None => {
                return None;
            },
            Some(x) => x,
        };
        let (x1, p1) = match <i32 as Encodable>::decode(buf, p0) {
            None => {
                return None;
            },
            Some(x) => x,
        };
        let (x2, p2) = match <String as Encodable>::decode(buf, p1) {
            None => {
                return None;
            },
            Some(x) => x,
        };
        let (x3, p3) = match <i32 as Encodable>::decode(buf, p2) {
            None => {
                return None;
            },
            Some(x) => x,
        };
        let (x4, p4) = match <String as Encodable>::decode(buf, p3) {
            None => {
                return None;
            },
            Some(x) => x,
        };
        let (x5, p5) = match <bool as Encodable>::decode(buf, p4) {
            None => {
                return None;
            },
            Some(x) => x,
        };
        let (x6, p6) = match <String as Encodable>::decode(buf, p5) {
            None => {
                return None;
            },
            Some(x) => x,
        };
        Some((SellFor {
            id: x0,
            price: x1,
            currency: x2,
            price_rub: x3,
            trader_name: x4,
            found_in_raid_required: x5,
            item_id: x6,
        }, p6))
    }
}

/// An item row as the relational store returns it.
#[derive(Clone, Debug)]
pub struct ItemFromDB {
    pub _id: String,
    pub item_name: String,
    pub short_name: String,
    pub avg_24h_price: i32,
    pub base_price: i32,
    /// IEEE-754 bits of the 48h price change; carried, never read.
    pub change_last_48h_percent_bits: u32,
    pub width: i32,
    pub height: i32,
    pub wiki: String,
    pub item_types: String,
    pub buy_from_flea_instant_profit: i32,
    pub buy_from_trader_instant_profit: i32,
    pub per_slot: i32,
    pub is_flea: bool,
}

/// The mathematical shape of a `ItemFromDB`.
pub struct ItemFromDBView {
    pub _id: Seq<char>,
    pub item_name: Seq<char>,
    pub short_name: Seq<char>,
    pub avg_24h_price: i32,
    pub base_price: i32,
    pub change_last_48h_percent_bits: u32,
    pub width: i32,
    pub height: i32,
    pub wiki: Seq<char>,
    pub item_types: Seq<char>,
    pub buy_from_flea_instant_profit: i32,
    pub buy_from_trader_instant_profit: i32,
    pub per_slot: i32,
    pub is_flea: bool,
}

impl DeepView for ItemFromDB {
    type V = ItemFromDBView;

    open spec fn deep_view(&self) -> ItemFromDBView {
        ItemFromDBView {
            _id: self._id.deep_view(),
            item_name: self.item_name.deep_view(),
            short_name: self.short_name.deep_view(),
            avg_24h_price: self.avg_24h_price.deep_view(),
            base_price: self.base_price.deep_view(),
            change_last_48h_percent_bits: self.change_last_48h_percent_bits.deep_view(),
            width: self.width.deep_view(),
            height: self.height.deep_view(),
            wiki: self.wiki.deep_view(),
            item_types: self.item_types.deep_view(),
            buy_from_flea_instant_profit: self.buy_from_flea_instant_profit.deep_view(),
            buy_from_trader_instant_profit: self.buy_from_trader_instant_profit.deep_view(),
            per_slot: self.per_slot.deep_view(),
            is_flea: self.is_flea.deep_view(),
        }
    }
}


/// An item with its buy and sell offers attached.
#[derive(Clone, Debug)]
pub struct Item {
    pub _id: String,
    pub item_name: String,
    pub short_name: String,
    pub avg_24h_price: i32,
    pub base_price: i32,
    /// IEEE-754 bits of the 48h price change; carried, never read.
    pub change_last_48h_percent_bits: u32,
    pub width: i32,
    pub height: i32,
    pub wiki: String,
    pub item_types: String,
    pub buy_from_flea_instant_profit: i32,
    pub buy_from_trader_instant_profit: i32,
    pub per_slot: i32,
    pub is_flea: bool,
    pub buys: Vec<BuyFor>,
    pub sells: Vec<SellFor>,
}

/// The mathematical shape of a `Item`.
pub struct ItemView {
    pub _id: Seq<char>,
    pub item_name: Seq<char>,
    pub short_name: Seq<char>,
    pub avg_24h_price: i32,
    pub base_price: i32,
    pub change_last_48h_percent_bits: u32,
    pub width: i32,
    pub height: i32,
    pub wiki: Seq<char>,
    pub item_types: Seq<char>,
    pub buy_from_flea_instant_profit: i32,
    pub buy_from_trader_instant_profit: i32,
    pub per_slot: i32,
    pub is_flea: bool,
    pub buys: Seq<BuyForView>,
    pub sells: Seq<SellForView>,
}

impl DeepView for Item {
    type V = ItemView;

    open spec fn deep_view(&self) -> ItemView {
        ItemView {
            _id: self._id.deep_view(),
            item_name: self.item_name.deep_view(),
            short_name: self.short_name.deep_view(),
            avg_24h_price: self.avg_24h_price.deep_view(),
            base_price: self.base_price.deep_view(),
            change_last_48h_percent_bits: self.change_last_48h_percent_bits.deep_view(),
            width: self.width.deep_view(),
            height: self.height.deep_view(),
            wiki: self.wiki.deep_view(),
            item_types: self.item_types.deep_view(),
            buy_from_flea_instant_profit: self.buy_from_flea_instant_profit.deep_view(),
            buy_from_trader_instant_profit: self.buy_from_trader_instant_profit.deep_view(),
            per_slot: self.per_slot.deep_view(),
            is_flea: self.is_flea.deep_view(),
            buys: self.buys.deep_view(),
            sells: self.sells.deep_view(),
        }
    }
}

impl Encodable for Item {
    open spec fn enc_of(v: ItemView) -> Seq<u8> {
        <String as Encodable>::enc_of(v._id)
            + (<String as Encodable>::enc_of(v.item_name)
            + (<String as Encodable>::enc_of(v.short_name)
            + (<i32 as Encodable>::enc_of(v.avg_24h_price)
            + (<i32 as Encodable>::enc_of(v.base_price)
            + (<u32 as Encodable>::enc_of(v.change_last_48h_percent_bits)
            + (<i32 as Encodable>::enc_of(v.width)
            + (<i32 as Encodable>::enc_of(v.height)
            + (<String as Encodable>::enc_of(v.wiki)
            + (<String as Encodable>::enc_of(v.item_types)
            + (<i32 as Encodable>::enc_of(v.buy_from_flea_instant_profit)
            + (<i32 as Encodable>::enc_of(v.buy_from_trader_instant_profit)
            + (<i32 as Encodable>::enc_of(v.per_slot)
            + (<bool as Encodable>::enc_of(v.is_flea)
            + (<Vec<BuyFor> as Encodable>::enc_of(v.buys)
            + (<Vec<SellFor> as Encodable>::enc_of(v.sells))))))))))))))))
    }

    open spec fn enc_wf(v: ItemView) -> bool {
        &&& <String as Encodable>::enc_wf(v._id)
        &&& <String as Encodable>::enc_wf(v.item_name)
        &&& <String as Encodable>::enc_wf(v.short_name)
        &&& <i32 as Encodable>::enc_wf(v.avg_24h_price)
        &&& <i32 as Encodable>::enc_wf(v.base_price)
        &&& <u32 as Encodable>::enc_wf(v.change_last_48h_percent_bits)
        &&& <i32 as Encodable>::enc_wf(v.width)
        &&& <i32 as Encodable>::enc_wf(v.height)
        &&& <String as Encodable>::enc_wf(v.wiki)
        &&& <String as Encodable>::enc_wf(v.item_types)
        &&& <i32 as Encodable>::enc_wf(v.buy_from_flea_instant_profit)
        &&& <i32 as Encodable>::enc_wf(v.buy_from_trader_instant_profit)
        &&& <i32 as Encodable>::enc_wf(v.per_slot)
        &&& <bool as Encodable>::enc_wf(v.is_flea)
        &&& <Vec<BuyFor> as Encodable>::enc_wf(v.buys)
        &&& <Vec<SellFor> as Encodable>::enc_wf(v.sells)
    }

    open spec fn dec_at(b: Seq<u8>, pos: int) -> Option<(ItemView, int)> {
        match <String as Encodable>::dec_at(b, pos) {
            None => None,
            Some((x0, p0)) => {
                match <String as Encodable>::dec_at(b, p0) {
                    None => None,
                    Some((x1, p1)) => {
                        match <String as Encodable>::dec_at(b, p1) {
                            None => None,
                            Some((x2, p2)) => {
                                match <i32 as Encodable>::dec_at(b, p2) {
                                    None => None,
                                    Some((x3, p3)) => {
                                        match <i32 as Encodable>::dec_at(b, p3) {
                                            None => None,
                                            Some((x4, p4)) => {
                                                match <u32 as Encodable>::dec_at(b, p4) {
                                                    None => None,
                                                    Some((x5, p5)) => {
                                                        match <i32 as Encodable>::dec_at(b, p5) {
                                                            None => None,
                                                            Some((x6, p6)) => {
                                                                match <i32 as Encodable>::dec_at(b, p6) {
                                                                    None => None,
                                                                    Some((x7, p7)) => {
                                                                        match <String as Encodable>::dec_at(b, p7) {
                                                                            None => None,
                                                                            Some((x8, p8)) => {
                                                                                match <String as Encodable>::dec_at(b, p8) {
                                                                                    None => None,
                                                                                    Some((x9, p9)) => {
                                                                                        match <i32 as Encodable>::dec_at(b, p9) {
                                                                                            None => None,
                                                                                            Some((x10, p10)) => {
                                                                                                match <i32 as Encodable>::dec_at(b, p10) {
                                                                                                    None => None,
                                                                                                    Some((x11, p11)) => {
                                                                                                        match <i32 as Encodable>::dec_at(b, p11) {
                                                                                                            None => None,
                                                                                                            Some((x12, p12)) => {
                                                                                                                match <bool as Encodable>::dec_at(b, p12) {
                                                                                                                    None => None,
                                                                                                                    Some((x13, p13)) => {
                                                                                                                        match <Vec<BuyFor> as Encodable>::dec_at(b, p13) {
                                                                                                                            None => None,
                                                                                                                            Some((x14, p14)) => {
                                                                                                                                match <Vec<SellFor> as Encodable>::dec_at(b, p14) {
                                                                                                                                    None => None,
                                                                                                                                    Some((x15, p15)) => 
                                                                                                                                    Some((ItemView {
                                                                                                                                        _id: x0,
                                                                                                                                        item_name: x1,
                                                                                                                                        short_name: x2,
                                                                                                                                        avg_24h_price: x3,
                                                                                                                                        base_price: x4,
                                                                                                                                        change_last_48h_percent_bits: x5,
                                                                                                                                        width: x6,
                                                                                                                                        height: x7,
                                                                                                                                        wiki: x8,
                                                                                                                                        item_types: x9,
                                                                                                                                        buy_from_flea_instant_profit: x10,
                                                                                                                                        buy_from_trader_instant_profit: x11,
                                                                                                                                        per_slot: x12,
                                                                                                                                        is_flea: x13,
                                                                                                                                        buys: x14,
                                                                                                                                        sells: x15,
                                                                                                                                    }, p15)),
                                                                                                                                }
                                                                                                                            },
                                                                                                                        }
                                                                                                                    },
                                                                                                                }
                                                                                                            },
                                                                                                        }
                                                                                                    },
                                                                                                }
                                                                                            },
                                                                                        }
                                                                                    },
                                                                                }
                                                                            },
                                                                        }
                                                                    },
                                                                }
                                                            },
                                                        }
                                                    },
                                                }
                                            },
                                        }
                                    },
                                }
                            },
                        }
                    },
                }
            },
        }
    }

    #[verifier::rlimit(100)]
    #[verifier::spinoff_prover]
    proof fn lemma_enc_dec(v: ItemView, b: Seq<u8>, pos: int) {
        let e0 = <String as Encodable>::enc_of(v._id);
        let e1 = <String as Encodable>::enc_of(v.item_name);
        let e2 = <String as Encodable>::enc_of(v.short_name);
        let e3 = <i32 as Encodable>::enc_of(v.avg_24h_price);
        let e4 = <i32 as Encodable>::enc_of(v.base_price);
        let e5 = <u32 as Encodable>::enc_of(v.change_last_48h_percent_bits);
        let e6 = <i32 as Encodable>::enc_of(v.width);
        let e7 = <i32 as Encodable>::enc_of(v.height);
        let e8 = <String as Encodable>::enc_of(v.wiki);
        let e9 = <String as Encodable>::enc_of(v.item_types);
        let e10 = <i32 as Encodable>::enc_of(v.buy_from_flea_instant_profit);
        let e11 = <i32 as Encodable>::enc_of(v.buy_from_trader_instant_profit);
        let e12 = <i32 as Encodable>::enc_of(v.per_slot);
        let e13 = <bool as Encodable>::enc_of(v.is_flea);
        let e14 = <Vec<BuyFor> as Encodable>::enc_of(v.buys);
        let e15 = <Vec<SellFor> as Encodable>::enc_of(v.sells);
        let s15 = e15;
        let s14 = e14 + s15;
        let s13 = e13 + s14;
        let s12 = e12 + s13;
        let s11 = e11 + s12;
        let s10 = e10 + s11;
        let s9 = e9 + s10;
        let s8 = e8 + s9;
        let s7 = e7 + s8;
        let s6 = e6 + s7;
        let s5 = e5 + s6;
        let s4 = e4 + s5;
        let s3 = e3 + s4;
        let s2 = e2 + s3;
        let s1 = e1 + s2;
        let s0 = e0 + s1;
        assert(Self::enc_of(v) == s0);
        let p0 = pos + e0.len() as int;
        let p1 = p0 + e1.len() as int;
        let p2 = p1 + e2.len() as int;
        let p3 = p2 + e3.len() as int;
        let p4 = p3 + e4.len() as int;
        let p5 = p4 + e5.len() as int;
        let p6 = p5 + e6.len() as int;
        let p7 = p6 + e7.len() as int;
        let p8 = p7 + e8.len() as int;
        let p9 = p8 + e9.len() as int;
        let p10 = p9 + e10.len() as int;
        let p11 = p10 + e11.len() as int;
        let p12 = p11 + e12.len() as int;
        let p13 = p12 + e13.len() as int;
        let p14 = p13 + e14.len() as int;
        let p15 = p14 + e15.len() as int;
        lemma_concat_parts(b, pos, e0, s1);
        <String as Encodable>::lemma_enc_dec(v._id, b, pos);
        lemma_concat_parts(b, p0, e1, s2);
        <String as Encodable>::lemma_enc_dec(v.item_name, b, p0);
        lemma_concat_parts(b, p1, e2, s3);
        <String as Encodable>::lemma_enc_dec(v.short_name, b, p1);
        lemma_concat_parts(b, p2, e3, s4);
        <i32 as Encodable>::lemma_enc_dec(v.avg_24h_price, b, p2);
        lemma_concat_parts(b, p3, e4, s5);
        <i32 as Encodable>::lemma_enc_dec(v.base_price, b, p3);
        lemma_concat_parts(b, p4, e5, s6);
        <u32 as Encodable>::lemma_enc_dec(v.change_last_48h_percent_bits, b, p4);
        lemma_concat_parts(b, p5, e6, s7);
        <i32 as Encodable>::lemma_enc_dec(v.width, b, p5);
        lemma_concat_parts(b, p6, e7, s8);
        <i32 as Encodable>::lemma_enc_dec(v.height, b, p6);
        lemma_concat_parts(b, p7, e8, s9);
        <String as Encodable>::lemma_enc_dec(v.wiki, b, p7);
        lemma_concat_parts(b, p8, e9, s10);
        <String as Encodable>::lemma_enc_dec(v.item_types, b, p8);
        lemma_concat_parts(b, p9, e10, s11);
        <i32 as Encodable>::lemma_enc_dec(v.buy_from_flea_instant_profit, b, p9);
        lemma_concat_parts(b, p10, e11, s12);
        <i32 as Encodable>::lemma_enc_dec(v.buy_from_trader_instant_profit, b, p10);
        lemma_concat_parts(b, p11, e12, s13);
        <i32 as Encodable>::lemma_enc_dec(v.per_slot, b, p11);
        lemma_concat_parts(b, p12, e13, s14);
        <bool as Encodable>::lemma_enc_dec(v.is_flea, b, p12);
        lemma_concat_parts(b, p13, e14, s15);
        <Vec<BuyFor> as Encodable>::lemma_enc_dec(v.buys, b, p13);
        <Vec<SellFor> as Encodable>::lemma_enc_dec(v.sells, b, p14);
        assert((ItemView {
            _id: v._id,
            item_name: v.item_name,
            short_name: v.short_name,
            avg_24h_price: v.avg_24h_price,
            base_price: v.base_price,
            change_last_48h_percent_bits: v.change_last_48h_percent_bits,
            width: v.width,
            height: v.height,
            wiki: v.wiki,
            item_types: v.item_types,
            buy_from_flea_instant_profit: v.buy_from_flea_instant_profit,
            buy_from_trader_instant_profit: v.buy_from_trader_instant_profit,
            per_slot: v.per_slot,
            is_flea: v.is_flea,
            buys: v.buys,
            sells: v.sells,
        }) == v);
        assert(Self::dec_at(b, pos) == Some((v, pos + Self::enc_of(v).len() as int)));
    }

    #[verifier::rlimit(100)]
    #[verifier::spinoff_prover]
    fn encode(&self, out: &mut Vec<u8>) {
        let ghost e0 = <String as Encodable>::enc_of(self._id.deep_view());
        let ghost e1 = <String as Encodable>::enc_of(self.item_name.deep_view());
        let ghost e2 = <String as Encodable>::enc_of(self.short_name.deep_view());
        let ghost e3 = <i32 as Encodable>::enc_of(self.avg_24h_price.deep_view());
        let ghost e4 = <i32 as Encodable>::enc_of(self.base_price.deep_view());
        let ghost e5 = <u32 as Encodable>::enc_of(self.change_last_48h_percent_bits.deep_view());
        let ghost e6 = <i32 as Encodable>::enc_of(self.width.deep_view());
        let ghost e7 = <i32 as Encodable>::enc_of(self.height.deep_view());
        let ghost e8 = <String as Encodable>::enc_of(self.wiki.deep_view());
        let ghost e9 = <String as Encodable>::enc_of(self.item_types.deep_view());
        let ghost e10 = <i32 as Encodable>::enc_of(self.buy_from_flea_instant_profit.deep_view());
        let ghost e11 = <i32 as Encodable>::enc_of(self.buy_from_trader_instant_profit.deep_view());
        let ghost e12 = <i32 as Encodable>::enc_of(self.per_slot.deep_view());
        let ghost e13 = <bool as Encodable>::enc_of(self.is_flea.deep_view());
        let ghost e14 = <Vec<BuyFor> as Encodable>::enc_of(self.buys.deep_view());
        let ghost e15 = <Vec<SellFor> as Encodable>::enc_of(self.sells.deep_view());
        let ghost t15 = e15;
        let ghost t14 = e14 + t15;
        let ghost t13 = e13 + t14;
        let ghost t12 = e12 + t13;
        let ghost t11 = e11 + t12;
        let ghost t10 = e10 + t11;
        let ghost t9 = e9 + t10;
        let ghost t8 = e8 + t9;
        let ghost t7 = e7 + t8;
        let ghost t6 = e6 + t7;
        let ghost t5 = e5 + t6;
        let ghost t4 = e4 + t5;
        let ghost t3 = e3 + t4;
        let ghost t2 = e2 + t3;
        let ghost t1 = e1 + t2;
        let ghost t0 = e0 + t1;
        self._id.encode(out);
        let ghost l0 = out@;
        self.item_name.encode(out);
        let ghost l1 = out@;
        self.short_name.encode(out);
        let ghost l2 = out@;
        self.avg_24h_price.encode(out);
        let ghost l3 = out@;
        self.base_price.encode(out);
        let ghost l4 = out@;
        self.change_last_48h_percent_bits.encode(out);
        let ghost l5 = out@;
        self.width.encode(out);
        let ghost l6 = out@;
        self.height.encode(out);
        let ghost l7 = out@;
        self.wiki.encode(out);
        let ghost l8 = out@;
        self.item_types.encode(out);
        let ghost l9 = out@;
        self.buy_from_flea_instant_profit.encode(out);
        let ghost l10 = out@;
        self.buy_from_trader_instant_profit.encode(out);
        let ghost l11 = out@;
        self.per_slot.encode(out);
        let ghost l12 = out@;
        self.is_flea.encode(out);
        let ghost l13 = out@;
        self.buys.encode(out);
        let ghost l14 = out@;
        self.sells.encode(out);
        proof {
            assert(out@ == l14 + t15);
            assert(out@ =~= l13 + t14) by {
                assert(l14 == l13 + e14);
            }
            assert(out@ =~= l12 + t13) by {
                assert(l13 == l12 + e13);
            }
            assert(out@ =~= l11 + t12) by {
                assert(l12 == l11 + e12);
            }
            assert(out@ =~= l10 + t11) by {
                assert(l11 == l10 + e11);
            }
            assert(out@ =~= l9 + t10) by {
                assert(l10 == l9 + e10);
            }
            assert(out@ =~= l8 + t9) by {
                assert(l9 == l8 + e9);
            }
            assert(out@ =~= l7 + t8) by {
                assert(l8 == l7 + e8);
            }
            assert(out@ =~= l6 + t7) by {
                assert(l7 == l6 + e7);
            }
            assert(out@ =~= l5 + t6) by {
                assert(l6 == l5 + e6);
            }
            assert(out@ =~= l4 + t5) by {
                assert(l5 == l4 + e5);
            }
            assert(out@ =~= l3 + t4) by {
                assert(l4 == l3 + e4);
            }
            assert(out@ =~= l2 + t3) by {
                assert(l3 == l2 + e3);
            }
            assert(out@ =~= l1 + t2) by {
                assert(l2 == l1 + e2);
            }
            assert(out@ =~= l0 + t1) by {
                assert(l1 == l0 + e1);
            }
            assert(out@ =~= old(out)@ + t0) by {
                assert(l0 == old(out)@ + e0);
            }
            assert(final(out)@ == old(out)@ + Self::enc_of(self.deep_view()));
        }
    }

    fn decode(buf: &Vec<u8>, pos: usize) -> (r: Option<(Self, usize)>) {
        let (x0, p0) = match <String as Encodable>::decode(buf, pos) {
            None => {
                return None;
            },
            Some(x) => x,
        };
        let (x1, p1) = match <String as Encodable>::decode(buf, p0) {
            None => {
                return None;
            },
            Some(x) => x,
        };
        let (x2, p2) = match <String as Encodable>::decode(buf, p1) {
            None => {
                return None;
            },
            Some(x) => x,
        };
        let (x3, p3) = match <i32 as Encodable>::decode(buf, p2) {
            None => {
                return None;
            },
            Some(x) => x,
        };
        let (x4, p4) = match <i32 as Encodable>::decode(buf, p3) {
            None => {
                return None;
            },
            Some(x) => x,
        };
        let (x5, p5) = match <u32 as Encodable>::decode(buf, p4) {
            None => {
                return None;
            },
            Some(x) => x,
        };
        let (x6, p6) = match <i32 as Encodable>::decode(buf, p5) {
            None => {
                return None;
            },
            Some(x) => x,
        };
        let (x7, p7) = match <i32 as Encodable>::decode(buf, p6) {
            None => {
                return None;
            },
            Some(x) => x,
        };
        let (x8, p8) = match <String as Encodable>::decode(buf, p7) {
            None => {
                return None;
            },
            Some(x) => x,
        };
        let (x9, p9) = match <String as Encodable>::decode(buf, p8) {
            None => {
                return None;
            },
            Some(x) => x,
        };
        let (x10, p10) = match <i32 as Encodable>::decode(buf, p9) {
            None => {
                return None;
            },
            Some(x) => x,
        };
        let (x11, p11) = match <i32 as Encodable>::decode(buf, p10) {
            None => {
                return None;
            },
            Some(x) => x,
        };
        let (x12, p12) = match <i32 as Encodable>::decode(buf, p11) {
            None => {
                return None;
            },
            Some(x) => x,
        };
        let (x13, p13) = match <bool as Encodable>::decode(buf, p12) {
            None => {
                return None;
            },
            Some(x) => x,
        };
        let (x14, p14) = match <Vec<BuyFor> as Encodable>::decode(buf, p13) {
            None => {
                return None;
            },
            Some(x) => x,
        };
        let (x15, p15) = match <Vec<SellFor> as Encodable>::decode(buf, p14) {
            None => {
                return None;
            },
            Some(x) => x,
        };
        Some((Item {
            _id: x0,
            item_name: x1,
            short_name: x2,
            avg_24h_price: x3,
            base_price: x4,
            change_last_48h_percent_bits: x5,
            width: x6,
            height: x7,
            wiki: x8,
            item_types: x9,
            buy_from_flea_instant_profit: x10,
            buy_from_trader_instant_profit: x11,
            per_slot: x12,
            is_flea: x13,
            buys: x14,
            sells: x15,
        }, p15))
    }
}

/// An item reduced to its identifying pair.
#[derive(Clone, Debug)]
pub struct ItemBase {
    pub _id: String,
    pub item_name: String,
}

/// The mathematical shape of a `ItemBase`.
pub struct ItemBaseView {
    pub _id: Seq<char>,
    pub item_name: Seq<char>,
}

impl DeepView for ItemBase {
    type V = ItemBaseView;

    open spec fn deep_view(&self) -> ItemBaseView {
        ItemBaseView {
            _id: self._id.deep_view(),
            item_name: self.item_name.deep_view(),
        }
    }
}

impl Encodable for ItemBase {
    open spec fn enc_of(v: ItemBaseView) -> Seq<u8> {
        <String as Encodable>::enc_of(v._id)
            + (<String as Encodable>::enc_of(v.item_name))
    }

    open spec fn enc_wf(v: ItemBaseView) -> bool {
        &&& <String as Encodable>::enc_wf(v._id)
        &&& <String as Encodable>::enc_wf(v.item_name)
    }

    open spec fn dec_at(b: Seq<u8>, pos: int) -> Option<(ItemBaseView, int)> {
        match <String as Encodable>::dec_at(b, pos) {
            None => None,
            Some((x0, p0)) => {
                match <String as Encodable>::dec_at(b, p0) {
                    None => None,
                    Some((x1, p1)) => 
                    Some((ItemBaseView {
                        _id: x0,
                        item_name: x1,
                    }, p1)),
                }
            },
        }
    }

    proof fn lemma_enc_dec(v: ItemBaseView, b: Seq<u8>, pos: int) {
        let e0 = <String as Encodable>::enc_of(v._id);
        let e1 = <String as Encodable>::enc_of(v.item_name);
        let s1 = e1;
        let s0 = e0 + s1;
        assert(Self::enc_of(v) == s0);
        let p0 = pos + e0.len() as int;
        let p1 = p0 + e1.len() as int;
        lemma_concat_parts(b, pos, e0, s1);
        <String as Encodable>::lemma_enc_dec(v._id, b, pos);
        <String as Encodable>::lemma_enc_dec(v.item_name, b, p0);
        assert((ItemBaseView {
            _id: v._id,
            item_name: v.item_name,
        }) == v);
        assert(Self::dec_at(b, pos) == Some((v, pos + Self::enc_of(v).len() as int)));
    }

    fn encode(&self, out: &mut Vec<u8>) {
        let ghost e0 = <String as Encodable>::enc_of(self._id.deep_view());
        let ghost e1 = <String as Encodable>::enc_of(self.item_name.deep_view());
        let ghost t1 = e1;
        let ghost t0 = e0 + t1;
        self._id.encode(out);
        let ghost l0 = out@;
        self.item_name.encode(out);
        proof {
            assert(out@ == l0 + t1);
            assert(out@ =~= old(out)@ + t0) by {
                assert(l0 == old(out)@ + e0);
            }
            assert(final(out)@ == old(out)@ + Self::enc_of(self.deep_view()));
        }
    }

    fn decode(buf: &Vec<u8>, pos: usize) -> (r: Option<(Self, usize)>) {
        let (x0, p0) = match <String as Encodable>::decode(buf, pos) {
            None => {
                return None;
            },
            Some(x) => x,
        };
        let (x1, p1) = match <String as Encodable>::decode(buf, p0) {
            None => {
                return None;
            },
            Some(x) => x,
        };
        Some((ItemBase {
            _id: x0,
            item_name: x1,
        }, p1))
    }
}

/// One objective of a task.
#[derive(Clone, Debug)]
pub struct Objective {
    pub id: i32,
    pub obj_type: String,
    pub obj_description: String,
    pub map_name: String,
    pub map_wiki: String,
    pub task_id: String,
    pub count: i32,
    pub needed_item_ids: Vec<String>,
}

/// The mathematical shape of a `Objective`.
pub struct ObjectiveView {
    pub id: i32,
    pub obj_type: Seq<char>,
    pub obj_description: Seq<char>,
    pub map_name: Seq<char>,
    pub map_wiki: Seq<char>,
    pub task_id: Seq<char>,
    pub count: i32,
    pub needed_item_ids: Seq<Seq<char>>,
}

impl DeepView for Objective {
    type V = ObjectiveView;

    open spec fn deep_view(&self) -> ObjectiveView {
        ObjectiveView {
            id: self.id.deep_view(),
            obj_type: self.obj_type.deep_view(),
            obj_description: self.obj_description.deep_view(),
            map_name: self.map_name.deep_view(),
            map_wiki: self.map_wiki.deep_view(),
            task_id: self.task_id.deep_view(),
            count: self.count.deep_view(),
            needed_item_ids: self.needed_item_ids.deep_view(),
        }
    }
}

impl Encodable for Objective {
    open spec fn enc_of(v: ObjectiveView) -> Seq<u8> {
        <i32 as Encodable>::enc_of(v.id)
            + (<String as Encodable>::enc_of(v.obj_type)
            + (<String as Encodable>::enc_of(v.obj_description)
            + (<String as Encodable>::enc_of(v.map_name)
            + (<String as Encodable>::enc_of(v.map_wiki)
            + (<String as Encodable>::enc_of(v.task_id)
            + (<i32 as Encodable>::enc_of(v.count)
            + (<Vec<String> as Encodable>::enc_of(v.needed_item_ids))))))))
    }

    open spec fn enc_wf(v: ObjectiveView) -> bool {
        &&& <i32 as Encodable>::enc_wf(v.id)
        &&& <String as Encodable>::enc_wf(v.obj_type)
        &&& <String as Encodable>::enc_wf(v.obj_description)
        &&& <String as Encodable>::enc_wf(v.map_name)
        &&& <String as Encodable>::enc_wf(v.map_wiki)
        &&& <String as Encodable>::enc_wf(v.task_id)
        &&& <i32 as Encodable>::enc_wf(v.count)
        &&& <Vec<String> as Encodable>::enc_wf(v.needed_item_ids)
    }

    open spec fn dec_at(b: Seq<u8>, pos: int) -> Option<(ObjectiveView, int)> {
        match <i32 as Encodable>::dec_at(b, pos) {
            None => None,
            Some((x0, p0)) => {
                match <String as Encodable>::dec_at(b, p0) {
                    None => None,
                    Some((x1, p1)) => {
                        match <String as Encodable>::dec_at(b, p1) {
                            None => None,
                            Some((x2, p2)) => {
                                match <String as Encodable>::dec_at(b, p2) {
                                    None => None,
                                    Some((x3, p3)) => {
                                        match <String as Encodable>::dec_at(b, p3) {
                                            None => None,
                                            Some((x4, p4)) => {
                                                match <String as Encodable>::dec_at(b, p4) {
                                                    None => None,
                                                    Some((x5, p5)) => {
                                                        match <i32 as Encodable>::dec_at(b, p5) {
                                                            None => None,
                                                            Some((x6, p6)) => {
                                                                match <Vec<String> as Encodable>::dec_at(b, p6) {
                                                                    None => None,
                                                                    Some((x7, p7)) => 
                                                                    Some((ObjectiveView {
                                                                        id: x0,
                                                                        obj_type: x1,
                                                                        obj_description: x2,
                                                                        map_name: x3,
                                                                        map_wiki: x4,
                                                                        task_id: x5,
                                                                        count: x6,
                                                                        needed_item_ids: x7,
                                                                    }, p7)),
                                                                }
                                                            },
                                                        }
                                                    },
                                                }
                                            },
                                        }
                                    },
                                }
                            },
                        }
                    },
                }
            },
        }
    }

    #[verifier::rlimit(100)]
    proof fn lemma_enc_dec(v: ObjectiveView, b: Seq<u8>, pos: int) {
        let e0 = <i32 as Encodable>::enc_of(v.id);
        let e1 = <String as Encodable>::enc_of(v.obj_type);
        let e2 = <String as Encodable>::enc_of(v.obj_description);
        let e3 = <String as Encodable>::enc_of(v.map_name);
        let e4 = <String as Encodable>::enc_of(v.map_wiki);
        let e5 = <String as Encodable>::enc_of(v.task_id);
        let e6 = <i32 as Encodable>::enc_of(v.count);
        let e7 = <Vec<String> as Encodable>::enc_of(v.needed_item_ids);
        let s7 = e7;
        let s6 = e6 + s7;
        let s5 = e5 + s6;
        let s4 = e4 + s5;
        let s3 = e3 + s4;
        let s2 = e2 + s3;
        let s1 = e1 + s2;
        let s0 = e0 + s1;
        assert(Self::enc_of(v) == s0);
        let p0 = pos + e0.len() as int;
        let p1 = p0 + e1.len() as int;
        let p2 = p1 + e2.len() as int;
        let p3 = p2 + e3.len() as int;
        let p4 = p3 + e4.len() as int;
        let p5 = p4 + e5.len() as int;
        let p6 = p5 + e6.len() as int;
        let p7 = p6 + e7.len() as int;
        lemma_concat_parts(b, pos, e0, s1);
        <i32 as Encodable>::lemma_enc_dec(v.id, b, pos);
        lemma_concat_parts(b, p0, e1, s2);
        <String as Encodable>::lemma_enc_dec(v.obj_type, b, p0);
        lemma_concat_parts(b, p1, e2, s3);
        <String as Encodable>::lemma_enc_dec(v.obj_description, b, p1);
        lemma_concat_parts(b, p2, e3, s4);
        <String as Encodable>::lemma_enc_dec(v.map_name, b, p2);
        lemma_concat_parts(b, p3, e4, s5);
        <String as Encodable>::lemma_enc_dec(v.map_wiki, b, p3);
        lemma_concat_parts(b, p4, e5, s6);
        <String as Encodable>::lemma_enc_dec(v.task_id, b, p4);
        lemma_concat_parts(b, p5, e6, s7);
        <i32 as Encodable>::lemma_enc_dec(v.count, b, p5);
        <Vec<String> as Encodable>::lemma_enc_dec(v.needed_item_ids, b, p6);
        assert((ObjectiveView {
            id: v.id,
            obj_type: v.obj_type,
            obj_description: v.obj_description,
            map_name: v.map_name,
            map_wiki: v.map_wiki,
            task_id: v.task_id,
            count: v.count,
            needed_item_ids: v.needed_item_ids,
        }) == v);
        assert(Self::dec_at(b, pos) == Some((v, pos + Self::enc_of(v).len() as int)));
    }

    #[verifier::rlimit(100)]
    fn encode(&self, out: &mut Vec<u8>) {
        let ghost e0 = <i32 as Encodable>::enc_of(self.id.deep_view());
        let ghost e1 = <String as Encodable>::enc_of(self.obj_type.deep_view());
        let ghost e2 = <String as Encodable>::enc_of(self.obj_description.deep_view());
        let ghost e3 = <String as Encodable>::enc_of(self.map_name.deep_view());
        let ghost e4 = <String as Encodable>::enc_of(self.map_wiki.deep_view());
        let ghost e5 = <String as Encodable>::enc_of(self.task_id.deep_view());
        let ghost e6 = <i32 as Encodable>::enc_of(self.count.deep_view());
        let ghost e7 = <Vec<String> as Encodable>::enc_of(self.needed_item_ids.deep_view());
        let ghost t7 = e7;
        let ghost t6 = e6 + t7;
        let ghost t5 = e5 + t6;
        let ghost t4 = e4 + t5;
        let ghost t3 = e3 + t4;
        let ghost t2 = e2 + t3;
        let ghost t1 = e1 + t2;
        let ghost t0 = e0 + t1;
        self.id.encode(out);
        let ghost l0 = out@;
        self.obj_type.encode(out);
        let ghost l1 = out@;
        self.obj_description.encode(out);
        let ghost l2 = out@;
        self.map_name.encode(out);
        let ghost l3 = out@;
        self.map_wiki.encode(out);
        let ghost l4 = out@;
        self.task_id.encode(out);
        let ghost l5 = out@;
        self.count.encode(out);
        let ghost l6 = out@;
        self.needed_item_ids.encode(out);
        proof {
            assert(out@ == l6 + t7);
            assert(out@ =~= l5 + t6) by {
                assert(l6 == l5 + e6);
            }
            assert(out@ =~= l4 + t5) by {
                assert(l5 == l4 + e5);
            }
            assert(out@ =~= l3 + t4) by {
                assert(l4 == l3 + e4);
            }
            assert(out@ =~= l2 + t3) by {
                assert(l3 == l2 + e3);
            }
            assert(out@ =~= l1 + t2) by {
                assert(l2 == l1 + e2);
            }
            assert(out@ =~= l0 + t1) by {
                assert(l1 == l0 + e1);
            }
            assert(out@ =~= old(out)@ + t0) by {
                assert(l0 == old(out)@ + e0);
            }
            assert(final(out)@ == old(out)@ + Self::enc_of(self.deep_view()));
        }
    }

    fn decode(buf: &Vec<u8>, pos: usize) -> (r: Option<(Self, usize)>) {
        let (x0, p0) = match <i32 as Encodable>::decode(buf, pos) {
            None => {
                return None;
            },
            Some(x) => x,
        };
        let (x1, p1) = match <String as Encodable>::decode(buf, p0) {
            None => {
                return None;
            },
            Some(x) => x,
        };
        let (x2, p2) = match <String as Encodable>::decode(buf, p1) {
            None => {
                return None;
            },
            Some(x) => x,
        };
        let (x3, p3) = match <String as Encodable>::decode(buf, p2) {
            None => {
                return None;
            },
            Some(x) => x,
        };
        let (x4, p4) = match <String as Encodable>::decode(buf, p3) {
            None => {
                return None;
            },
            Some(x) => x,
        };
        let (x5, p5) = match <String as Encodable>::decode(buf, p4) {
            None => {
                return None;
            },
            Some(x) => x,
        };
        let (x6, p6) = match <i32 as Encodable>::decode(buf, p5) {
            None => {
                return None;
            },
            Some(x) => x,
        };
        let (x7, p7) = match <Vec<String> as Encodable>::decode(buf, p6) {
            None => {
                return None;
            },
            Some(x) => x,
        };
        Some((Objective {
            id: x0,
            obj_type: x1,
            obj_description: x2,
            map_name: x3,
            map_wiki: x4,
            task_id: x5,
            count: x6,
            needed_item_ids: x7,
        }, p7))
    }
}

/// The item requirements of one objective, as queried for the required-items view.
#[derive(Clone, Debug)]
pub struct NeededItemsDB {
    pub count: i32,
    pub needed_item_ids: Vec<String>,
}

/// The mathematical shape of a `NeededItemsDB`.
pub struct NeededItemsDBView {
    pub count: i32,
    pub needed_item_ids: Seq<Seq<char>>,
}

impl DeepView for NeededItemsDB {
    type V = NeededItemsDBView;

    open spec fn deep_view(&self) -> NeededItemsDBView {
        NeededItemsDBView {
            count: self.count.deep_view(),
            needed_item_ids: self.needed_item_ids.deep_view(),
        }
    }
}


/// A persisted prerequisite relation: `task_id` requires `req_task_id`.
#[derive(Clone, Debug)]
pub struct TaskRequirement {
    pub id: i32,
    pub status: String,
    pub req_task_id: String,
    pub task_id: String,
}

/// The mathematical shape of a `TaskRequirement`.
pub struct TaskRequirementView {
    pub id: i32,
    pub status: Seq<char>,
    pub req_task_id: Seq<char>,
    pub task_id: Seq<char>,
}

impl DeepView for TaskRequirement {
    type V = TaskRequirementView;

    open spec fn deep_view(&self) -> TaskRequirementView {
        TaskRequirementView {
            id: self.id.deep_view(),
            status: self.status.deep_view(),
            req_task_id: self.req_task_id.deep_view(),
            task_id: self.task_id.deep_view(),
        }
    }
}

impl Encodable for TaskRequirement {
    open spec fn enc_of(v: TaskRequirementView) -> Seq<u8> {
        <i32 as Encodable>::enc_of(v.id)
            + (<String as Encodable>::enc_of(v.status)
            + (<String as Encodable>::enc_of(v.req_task_id)
            + (<String as Encodable>::enc_of(v.task_id))))
    }

    open spec fn enc_wf(v: TaskRequirementView) -> bool {
        &&& <i32 as Encodable>::enc_wf(v.id)
        &&& <String as Encodable>::enc_wf(v.status)
        &&& <String as Encodable>::enc_wf(v.req_task_id)
        &&& <String as Encodable>::enc_wf(v.task_id)
    }

    open spec fn dec_at(b: Seq<u8>, pos: int) -> Option<(TaskRequirementView, int)> {
        match <i32 as Encodable>::dec_at(b, pos) {
            None => None,
            Some((x0, p0)) => {
                match <String as Encodable>::dec_at(b, p0) {
                    None => None,
                    Some((x1, p1)) => {
                        match <String as Encodable>::dec_at(b, p1) {
                            None => None,
                            Some((x2, p2)) => {
                                match <String as Encodable>::dec_at(b, p2) {
                                    None => None,
                                    Some((x3, p3)) => 
                                    Some((TaskRequirementView {
                                        id: x0,
                                        status: x1,
                                        req_task_id: x2,
                                        task_id: x3,
                                    }, p3)),
                                }
                            },
                        }
                    },
                }
            },
        }
    }

    proof fn lemma_enc_dec(v: TaskRequirementView, b: Seq<u8>, pos: int) {
        let e0 = <i32 as Encodable>::enc_of(v.id);
        let e1 = <String as Encodable>::enc_of(v.status);
        let e2 = <String as Encodable>::enc_of(v.req_task_id);
        let e3 = <String as Encodable>::enc_of(v.task_id);
        let s3 = e3;
        let s2 = e2 + s3;
        let s1 = e1 + s2;
        let s0 = e0 + s1;
        assert(Self::enc_of(v) == s0);
        let p0 = pos + e0.len() as int;
        let p1 = p0 + e1.len() as int;
        let p2 = p1 + e2.len() as int;
        let p3 = p2 + e3.len() as int;
        lemma_concat_parts(b, pos, e0, s1);
        <i32 as Encodable>::lemma_enc_dec(v.id, b, pos);
        lemma_concat_parts(b, p0, e1, s2);
        <String as Encodable>::lemma_enc_dec(v.status, b, p0);
        lemma_concat_parts(b, p1, e2, s3);
        <String as Encodable>::lemma_enc_dec(v.req_task_id, b, p1);
        <String as Encodable>::lemma_enc_dec(v.task_id, b, p2);
        assert((TaskRequirementView {
            id: v.id,
            status: v.status,
            req_task_id: v.req_task_id,
            task_id: v.task_id,
        }) == v);
        assert(Self::dec_at(b, pos) == Some((v, pos + Self::enc_of(v).len() as int)));
    }

    fn encode(&self, out: &mut Vec<u8>) {
        let ghost e0 = <i32 as Encodable>::enc_of(self.id.deep_view());
        let ghost e1 = <String as Encodable>::enc_of(self.status.deep_view());
        let ghost e2 = <String as Encodable>::enc_of(self.req_task_id.deep_view());
        let ghost e3 = <String as Encodable>::enc_of(self.task_id.deep_view());
        let ghost t3 = e3;
        let ghost t2 = e2 + t3;
        let ghost t1 = e1 + t2;
        let ghost t0 = e0 + t1;
        self.id.encode(out);
        let ghost l0 = out@;
        self.status.encode(out);
        let ghost l1 = out@;
        self.req_task_id.encode(out);
        let ghost l2 = out@;
        self.task_id.encode(out);
        proof {
            assert(out@ == l2 + t3);
            assert(out@ =~= l1 + t2) by {
                assert(l2 == l1 + e2);
            }
            assert(out@ =~= l0 + t1) by {
                assert(l1 == l0 + e1);
            }
            assert(out@ =~= old(out)@ + t0) by {
                assert(l0 == old(out)@ + e0);
            }
            assert(final(out)@ == old(out)@ + Self::enc_of(self.deep_view()));
        }
    }

    fn decode(buf: &Vec<u8>, pos: usize) -> (r: Option<(Self, usize)>) {
        let (x0, p0) = match <i32 as Encodable>::decode(buf, pos) {
            None => {
                return None;
            },
            Some(x) => x,
        };
        let (x1, p1) = match <String as Encodable>::decode(buf, p0) {
            None => {
                return None;
            },
            Some(x) => x,
        };
        let (x2, p2) = match <String as Encodable>::decode(buf, p1) {
            None => {
                return None;
            },
            Some(x) => x,
        };
        let (x3, p3) = match <String as Encodable>::decode(buf, p2) {
            None => {
                return None;
            },
            Some(x) => x,
        };
        Some((TaskRequirement {
            id: x0,
            status: x1,
            req_task_id: x2,
            task_id: x3,
        }, p3))
    }
}

/// A task row as the relational store returns it.
#[derive(Clone, Debug)]
pub struct TaskFromDB {
    pub _id: String,
    pub task_name: String,
    pub min_player_level: i32,
    pub trader: String,
    pub faction_name: String,
    pub kappa_required: bool,
    pub lightkeeper_required: bool,
    pub wiki: String,
}

/// The mathematical shape of a `TaskFromDB`.
pub struct TaskFromDBView {
    pub _id: Seq<char>,
    pub task_name: Seq<char>,
    pub min_player_level: i32,
    pub trader: Seq<char>,
    pub faction_name: Seq<char>,
    pub kappa_required: bool,
    pub lightkeeper_required: bool,
    pub wiki: Seq<char>,
}

impl DeepView for TaskFromDB {
    type V = TaskFromDBView;

    open spec fn deep_view(&self) -> TaskFromDBView {
        TaskFromDBView {
            _id: self._id.deep_view(),
            task_name: self.task_name.deep_view(),
            min_player_level: self.min_player_level.deep_view(),
            trader: self.trader.deep_view(),
            faction_name: self.faction_name.deep_view(),
            kappa_required: self.kappa_required.deep_view(),
            lightkeeper_required: self.lightkeeper_required.deep_view(),
            wiki: self.wiki.deep_view(),
        }
    }
}


/// A task with its objectives and prerequisite relations attached.
#[derive(Clone, Debug)]
pub struct Task {
    pub _id: String,
    pub task_name: String,
    pub min_player_level: i32,
    pub trader: String,
    pub faction_name: String,
    pub kappa_required: bool,
    pub lightkeeper_required: bool,
    pub wiki: String,
    pub objectives: Vec<Objective>,
    pub task_requirements: Vec<TaskRequirement>,
}

/// The mathematical shape of a `Task`.
pub struct TaskView {
    pub _id: Seq<char>,
    pub task_name: Seq<char>,
    pub min_player_level: i32,
    pub trader: Seq<char>,
    pub faction_name: Seq<char>,
    pub kappa_required: bool,
    pub lightkeeper_required: bool,
    pub wiki: Seq<char>,
    pub objectives: Seq<ObjectiveView>,
    pub task_requirements: Seq<TaskRequirementView>,
}

impl DeepView for Task {
    type V = TaskView;

    open spec fn deep_view(&self) -> TaskView {
        TaskView {
            _id: self._id.deep_view(),
            task_name: self.task_name.deep_view(),
            min_player_level: self.min_player_level.deep_view(),
            trader: self.trader.deep_view(),
            faction_name: self.faction_name.deep_view(),
            kappa_required: self.kappa_required.deep_view(),
            lightkeeper_required: self.lightkeeper_required.deep_view(),
            wiki: self.wiki.deep_view(),
            objectives: self.objectives.deep_view(),
            task_requirements: self.task_requirements.deep_view(),
        }
    }
}

impl Encodable for Task {
    open spec fn enc_of(v: TaskView) -> Seq<u8> {
        <String as Encodable>::enc_of(v._id)
            + (<String as Encodable>::enc_of(v.task_name)
            + (<i32 as Encodable>::enc_of(v.min_player_level)
            + (<String as Encodable>::enc_of(v.trader)
            + (<String as Encodable>::enc_of(v.faction_name)
            + (<bool as Encodable>::enc_of(v.kappa_required)
            + (<bool as Encodable>::enc_of(v.lightkeeper_required)
            + (<String as Encodable>::enc_of(v.wiki)
            + (<Vec<Objective> as Encodable>::enc_of(v.objectives)
            + (<Vec<TaskRequirement> as Encodable>::enc_of(v.task_requirements))))))))))
    }

    open spec fn enc_wf(v: TaskView) -> bool {
        &&& <String as Encodable>::enc_wf(v._id)
        &&& <String as Encodable>::enc_wf(v.task_name)
        &&& <i32 as Encodable>::enc_wf(v.min_player_level)
        &&& <String as Encodable>::enc_wf(v.trader)
        &&& <String as Encodable>::enc_wf(v.faction_name)
        &&& <bool as Encodable>::enc_wf(v.kappa_required)
        &&& <bool as Encodable>::enc_wf(v.lightkeeper_required)
        &&& <String as Encodable>::enc_wf(v.wiki)
        &&& <Vec<Objective> as Encodable>::enc_wf(v.objectives)
        &&& <Vec<TaskRequirement> as Encodable>::enc_wf(v.task_requirements)
    }

    open spec fn dec_at(b: Seq<u8>, pos: int) -> Option<(TaskView, int)> {
        match <String as Encodable>::dec_at(b, pos) {
            None => None,
            Some((x0, p0)) => {
                match <String as Encodable>::dec_at(b, p0) {
                    None => None,
                    Some((x1, p1)) => {
                        match <i32 as Encodable>::dec_at(b, p1) {
                            None => None,
                            Some((x2, p2)) => {
                                match <String as Encodable>::dec_at(b, p2) {
                                    None => None,
                                    Some((x3, p3)) => {
                                        match <String as Encodable>::dec_at(b, p3) {
                                            None => None,
                                            Some((x4, p4)) => {
                                                match <bool as Encodable>::dec_at(b, p4) {
                                                    None => None,
                                                    Some((x5, p5)) => {
                                                        match <bool as Encodable>::dec_at(b, p5) {
                                                            None => None,
                                                            Some((x6, p6)) => {
                                                                match <String as Encodable>::dec_at(b, p6) {
                                                                    None => None,
                                                                    Some((x7, p7)) => {
                                                                        match <Vec<Objective> as Encodable>::dec_at(b, p7) {
                                                                            None => None,
                                                                            Some((x8, p8)) => {
                                                                                match <Vec<TaskRequirement> as Encodable>::dec_at(b, p8) {
                                                                                    None => None,
                                                                                    Some((x9, p9)) => 
                                                                                    Some((TaskView {
                                                                                        _id: x0,
                                                                                        task_name: x1,
                                                                                        min_player_level: x2,
                                                                                        trader: x3,
                                                                                        faction_name: x4,
                                                                                        kappa_required: x5,
                                                                                        lightkeeper_required: x6,
                                                                                        wiki: x7,
                                                                                        objectives: x8,
                                                                                        task_requirements: x9,
                                                                                    }, p9)),
                                                                                }
                                                                            },
                                                                        }
                                                                    },
                                                                }
                                                            },
                                                        }
                                                    },
                                                }
                                            },
                                        }
                                    },
                                }
                            },
                        }
                    },
                }
            },
        }
    }

    #[verifier::rlimit(100)]
    proof fn lemma_enc_dec(v: TaskView, b: Seq<u8>, pos: int) {
        let e0 = <String as Encodable>::enc_of(v._id);
        let e1 = <String as Encodable>::enc_of(v.task_name);
        let e2 = <i32 as Encodable>::enc_of(v.min_player_level);
        let e3 = <String as Encodable>::enc_of(v.trader);
        let e4 = <String as Encodable>::enc_of(v.faction_name);
        let e5 = <bool as Encodable>::enc_of(v.kappa_required);
        let e6 = <bool as Encodable>::enc_of(v.lightkeeper_required);
        let e7 = <String as Encodable>::enc_of(v.wiki);
        let e8 = <Vec<Objective> as Encodable>::enc_of(v.objectives);
        let e9 = <Vec<TaskRequirement> as Encodable>::enc_of(v.task_requirements);
        let s9 = e9;
        let s8 = e8 + s9;
        let s7 = e7 + s8;
        let s6 = e6 + s7;
        let s5 = e5 + s6;
        let s4 = e4 + s5;
        let s3 = e3 + s4;
        let s2 = e2 + s3;
        let s1 = e1 + s2;
        let s0 = e0 + s1;
        assert(Self::enc_of(v) == s0);
        let p0 = pos + e0.len() as int;
        let p1 = p0 + e1.len() as int;
        let p2 = p1 + e2.len() as int;
        let p3 = p2 + e3.len() as int;
        let p4 = p3 + e4.len() as int;
        let p5 = p4 + e5.len() as int;
        let p6 = p5 + e6.len() as int;
        let p7 = p6 + e7.len() as int;
        let p8 = p7 + e8.len() as int;
        let p9 = p8 + e9.len() as int;
        lemma_concat_parts(b, pos, e0, s1);
        <String as Encodable>::lemma_enc_dec(v._id, b, pos);
        lemma_concat_parts(b, p0, e1, s2);
        <String as Encodable>::lemma_enc_dec(v.task_name, b, p0);
        lemma_concat_parts(b, p1, e2, s3);
        <i32 as Encodable>::lemma_enc_dec(v.min_player_level, b, p1);
        lemma_concat_parts(b, p2, e3, s4);
        <String as Encodable>::lemma_enc_dec(v.trader, b, p2);
        lemma_concat_parts(b, p3, e4, s5);
        <String as Encodable>::lemma_enc_dec(v.faction_name, b, p3);
        lemma_concat_parts(b, p4, e5, s6);
        <bool as Encodable>::lemma_enc_dec(v.kappa_required, b, p4);
        lemma_concat_parts(b, p5, e6, s7);
        <bool as Encodable>::lemma_enc_dec(v.lightkeeper_required, b, p5);
        lemma_concat_parts(b, p6, e7, s8);
        <String as Encodable>::lemma_enc_dec(v.wiki, b, p6);
        lemma_concat_parts(b, p7, e8, s9);
        <Vec<Objective> as Encodable>::lemma_enc_dec(v.objectives, b, p7);
        <Vec<TaskRequirement> as Encodable>::lemma_enc_dec(v.task_requirements, b, p8);
        assert((TaskView {
            _id: v._id,
            task_name: v.task_name,
            min_player_level: v.min_player_level,
            trader: v.trader,
            faction_name: v.faction_name,
            kappa_required: v.kappa_required,
            lightkeeper_required: v.lightkeeper_required,
            wiki: v.wiki,
            objectives: v.objectives,
            task_requirements: v.task_requirements,
        }) == v);
        assert(Self::dec_at(b, pos) == Some((v, pos + Self::enc_of(v).len() as int)));
    }

    #[verifier::rlimit(100)]
    fn encode(&self, out: &mut Vec<u8>) {
        let ghost e0 = <String as Encodable>::enc_of(self._id.deep_view());
        let ghost e1 = <String as Encodable>::enc_of(self.task_name.deep_view());
        let ghost e2 = <i32 as Encodable>::enc_of(self.min_player_level.deep_view());
        let ghost e3 = <String as Encodable>::enc_of(self.trader.deep_view());
        let ghost e4 = <String as Encodable>::enc_of(self.faction_name.deep_view());
        let ghost e5 = <bool as Encodable>::enc_of(self.kappa_required.deep_view());
        let ghost e6 = <bool as Encodable>::enc_of(self.lightkeeper_required.deep_view());
        let ghost e7 = <String as Encodable>::enc_of(self.wiki.deep_view());
        let ghost e8 = <Vec<Objective> as Encodable>::enc_of(self.objectives.deep_view());
        let ghost e9 = <Vec<TaskRequirement> as Encodable>::enc_of(self.task_requirements.deep_view());
        let ghost t9 = e9;
        let ghost t8 = e8 + t9;
        let ghost t7 = e7 + t8;
        let ghost t6 = e6 + t7;
        let ghost t5 = e5 + t6;
        let ghost t4 = e4 + t5;
        let ghost t3 = e3 + t4;
        let ghost t2 = e2 + t3;
        let ghost t1 = e1 + t2;
        let ghost t0 = e0 + t1;
        self._id.encode(out);
        let ghost l0 = out@;
        self.task_name.encode(out);
        let ghost l1 = out@;
        self.min_player_level.encode(out);
        let ghost l2 = out@;
        self.trader.encode(out);
        let ghost l3 = out@;
        self.faction_name.encode(out);
        let ghost l4 = out@;
        self.kappa_required.encode(out);
        let ghost l5 = out@;
        self.lightkeeper_required.encode(out);
        let ghost l6 = out@;
        self.wiki.encode(out);
        let ghost l7 = out@;
        self.objectives.encode(out);
        let ghost l8 = out@;
        self.task_requirements.encode(out);
        proof {
            assert(out@ == l8 + t9);
            assert(out@ =~= l7 + t8) by {
                assert(l8 == l7 + e8);
            }
            assert(out@ =~= l6 + t7) by {
                assert(l7 == l6 + e7);
            }
            assert(out@ =~= l5 + t6) by {
                assert(l6 == l5 + e6);
            }
            assert(out@ =~= l4 + t5) by {
                assert(l5 == l4 + e5);
            }
            assert(out@ =~= l3 + t4) by {
                assert(l4 == l3 + e4);
            }
            assert(out@ =~= l2 + t3) by {
                assert(l3 == l2 + e3);
            }
            assert(out@ =~= l1 + t2) by {
                assert(l2 == l1 + e2);
            }
            assert(out@ =~= l0 + t1) by {
                assert(l1 == l0 + e1);
            }
            assert(out@ =~= old(out)@ + t0) by {
                assert(l0 == old(out)@ + e0);
            }
            assert(final(out)@ == old(out)@ + Self::enc_of(self.deep_view()));
        }
    }

    fn decode(buf: &Vec<u8>, pos: usize) -> (r: Option<(Self, usize)>) {
        let (x0, p0) = match <String as Encodable>::decode(buf, pos) {
            None => {
                return None;
            },
            Some(x) => x,
        };
        let (x1, p1) = match <String as Encodable>::decode(buf, p0) {
            None => {
                return None;
            },
            Some(x) => x,
        };
        let (x2, p2) = match <i32 as Encodable>::decode(buf, p1) {
            None => {
                return None;
            },
            Some(x) => x,
        };
        let (x3, p3) = match <String as Encodable>::decode(buf, p2) {
            None => {
                return None;
            },
            Some(x) => x,
        };
        let (x4, p4) = match <String as Encodable>::decode(buf, p3) {
            None => {
                return None;
            },
            Some(x) => x,
        };
        let (x5, p5) = match <bool as Encodable>::decode(buf, p4) {
            None => {
                return None;
            },
            Some(x) => x,
        };
        let (x6, p6) = match <bool as Encodable>::decode(buf, p5) {
            None => {
                return None;
            },
            Some(x) => x,
        };
        let (x7, p7) = match <String as Encodable>::decode(buf, p6) {
            None => {
                return None;
            },
            Some(x) => x,
        };
        let (x8, p8) = match <Vec<Objective> as Encodable>::decode(buf, p7) {
            None => {
                return None;
            },
            Some(x) => x,
        };
        let (x9, p9) = match <Vec<TaskRequirement> as Encodable>::decode(buf, p8) {
            None => {
                return None;
            },
            Some(x) => x,
        };
        Some((Task {
            _id: x0,
            task_name: x1,
            min_player_level: x2,
            trader: x3,
            faction_name: x4,
            kappa_required: x5,
            lightkeeper_required: x6,
            wiki: x7,
            objectives: x8,
            task_requirements: x9,
        }, p9))
    }
}

/// A task reduced to its identifying pair.
#[derive(Clone, Debug)]
pub struct TaskBase {
    pub _id: String,
    pub task_name: String,
}

/// The mathematical shape of a `TaskBase`.
pub struct TaskBaseView {
    pub _id: Seq<char>,
    pub task_name: Seq<char>,
}

impl DeepView for TaskBase {
    type V = TaskBaseView;

    open spec fn deep_view(&self) -> TaskBaseView {
        TaskBaseView {
            _id: self._id.deep_view(),
            task_name: self.task_name.deep_view(),
        }
    }
}

impl Encodable for TaskBase {
    open spec fn enc_of(v: TaskBaseView) -> Seq<u8> {
        <String as Encodable>::enc_of(v._id)
            + (<String as Encodable>::enc_of(v.task_name))
    }

    open spec fn enc_wf(v: TaskBaseView) -> bool {
        &&& <String as Encodable>::enc_wf(v._id)
        &&& <String as Encodable>::enc_wf(v.task_name)
    }

    open spec fn dec_at(b: Seq<u8>, pos: int) -> Option<(TaskBaseView, int)> {
        match <String as Encodable>::dec_at(b, pos) {
            None => None,
            Some((x0, p0)) => {
                match <String as Encodable>::dec_at(b, p0) {
                    None => None,
                    Some((x1, p1)) => 
                    Some((TaskBaseView {
                        _id: x0,
                        task_name: x1,
                    }, p1)),
                }
            },
        }
    }

    proof fn lemma_enc_dec(v: TaskBaseView, b: Seq<u8>, pos: int) {
        let e0 = <String as Encodable>::enc_of(v._id);
        let e1 = <String as Encodable>::enc_of(v.task_name);
        let s1 = e1;
        let s0 = e0 + s1;
        assert(Self::enc_of(v) == s0);
        let p0 = pos + e0.len() as int;
        let p1 = p0 + e1.len() as int;
        lemma_concat_parts(b, pos, e0, s1);
        <String as Encodable>::lemma_enc_dec(v._id, b, pos);
        <String as Encodable>::lemma_enc_dec(v.task_name, b, p0);
        assert((TaskBaseView {
            _id: v._id,
            task_name: v.task_name,
        }) == v);
        assert(Self::dec_at(b, pos) == Some((v, pos + Self::enc_of(v).len() as int)));
    }

    fn encode(&self, out: &mut Vec<u8>) {
        let ghost e0 = <String as Encodable>::enc_of(self._id.deep_view());
        let ghost e1 = <String as Encodable>::enc_of(self.task_name.deep_view());
        let ghost t1 = e1;
        let ghost t0 = e0 + t1;
        self._id.encode(out);
        let ghost l0 = out@;
        self.task_name.encode(out);
        proof {
            assert(out@ == l0 + t1);
            assert(out@ =~= old(out)@ + t0) by {
                assert(l0 == old(out)@ + e0);
            }
            assert(final(out)@ == old(out)@ + Self::enc_of(self.deep_view()));
        }
    }

    fn decode(buf: &Vec<u8>, pos: usize) -> (r: Option<(Self, usize)>) {
        let (x0, p0) = match <String as Encodable>::decode(buf, pos) {
            None => {
                return None;
            },
            Some(x) => x,
        };
        let (x1, p1) = match <String as Encodable>::decode(buf, p0) {
            None => {
                return None;
            },
            Some(x) => x,
        };
        Some((TaskBase {
            _id: x0,
            task_name: x1,
        }, p1))
    }
}

/// One recorded flea-market price sample of an item.
#[derive(Clone, Debug)]
pub struct SavedItemData {
    pub price_rub: i32,
    /// When the sample was taken, in microseconds since the Unix epoch.
    pub recorded_time: i64,
}

/// The mathematical shape of a `SavedItemData`.
pub struct SavedItemDataView {
    pub price_rub: i32,
    pub recorded_time: i64,
}

impl DeepView for SavedItemData {
    type V = SavedItemDataView;

    open spec fn deep_view(&self) -> SavedItemDataView {
        SavedItemDataView {
            price_rub: self.price_rub.deep_view(),
            recorded_time: self.recorded_time.deep_view(),
        }
    }
}

impl Encodable for SavedItemData {
    open spec fn enc_of(v: SavedItemDataView) -> Seq<u8> {
        <i32 as Encodable>::enc_of(v.price_rub)
            + (<i64 as Encodable>::enc_of(v.recorded_time))
    }

    open spec fn enc_wf(v: SavedItemDataView) -> bool {
        &&& <i32 as Encodable>::enc_wf(v.price_rub)
        &&& <i64 as Encodable>::enc_wf(v.recorded_time)
    }

    open spec fn dec_at(b: Seq<u8>, pos: int) -> Option<(SavedItemDataView, int)> {
        match <i32 as Encodable>::dec_at(b, pos) {
            None => None,
            Some((x0, p0)) => {
                match <i64 as Encodable>::dec_at(b, p0) {
                    None => None,
                    Some((x1, p1)) => 
                    Some((SavedItemDataView {
                        price_rub: x0,
                        recorded_time: x1,
                    }, p1)),
                }
            },
        }
    }

    proof fn lemma_enc_dec(v: SavedItemDataView, b: Seq<u8>, pos: int) {
        let e0 = <i32 as Encodable>::enc_of(v.price_rub);
        let e1 = <i64 as Encodable>::enc_of(v.recorded_time);
        let s1 = e1;
        let s0 = e0 + s1;
        assert(Self::enc_of(v) == s0);
        let p0 = pos + e0.len() as int;
        let p1 = p0 + e1.len() as int;
        lemma_concat_parts(b, pos, e0, s1);
        <i32 as Encodable>::lemma_enc_dec(v.price_rub, b, pos);
        <i64 as Encodable>::lemma_enc_dec(v.recorded_time, b, p0);
        assert((SavedItemDataView {
            price_rub: v.price_rub,
            recorded_time: v.recorded_time,
        }) == v);
        assert(Self::dec_at(b, pos) == Some((v, pos + Self::enc_of(v).len() as int)));
    }

    fn encode(&self, out: &mut Vec<u8>) {
        let ghost e0 = <i32 as Encodable>::enc_of(self.price_rub.deep_view());
        let ghost e1 = <i64 as Encodable>::enc_of(self.recorded_time.deep_view());
        let ghost t1 = e1;
        let ghost t0 = e0 + t1;
        self.price_rub.encode(out);
        let ghost l0 = out@;
        self.recorded_time.encode(out);
        proof {
            assert(out@ == l0 + t1);
            assert(out@ =~= old(out)@ + t0) by {
                assert(l0 == old(out)@ + e0);
            }
            assert(final(out)@ == old(out)@ + Self::enc_of(self.deep_view()));
        }
    }

    fn decode(buf: &Vec<u8>, pos: usize) -> (r: Option<(Self, usize)>) {
        let (x0, p0) = match <i32 as Encodable>::decode(buf, pos) {
            None => {
                return None;
            },
            Some(x) => x,
        };
        let (x1, p1) = match <i64 as Encodable>::decode(buf, p0) {
            None => {
                return None;
            },
            Some(x) => x,
        };
        Some((SavedItemData {
            price_rub: x0,
            recorded_time: x1,
        }, p1))
    }
}

/// An ammunition row; its fractional columns travel as IEEE-754 bits.
#[derive(Clone, Debug)]
pub struct Ammo {
    pub accuracy_modifier_bits: u32,
    pub ammo_type: String,
    pub caliber: String,
    pub armor_damage: i32,
    pub fragmentation_chance_bits: u32,
    pub damage: i32,
    pub heavy_bleed_modifier_bits: u32,
    pub initial_speed_bits: u32,
    pub light_bleed_modifier_bits: u32,
    pub penetration_chance_bits: u32,
    pub penetration_power: i32,
    pub penetration_power_deviation_bits: u32,
    pub projectile_count: i32,
    pub recoil_modifier_bits: u32,
    pub ricochet_chance_bits: u32,
    pub stack_max_size: i32,
    pub stamina_burn_per_damage_bits: u32,
    pub tracer: bool,
    pub tracer_color: String,
    pub weight_bits: u32,
    pub item_id: String,
}

/// The mathematical shape of a `Ammo`.
pub struct AmmoView {
    pub accuracy_modifier_bits: u32,
    pub ammo_type: Seq<char>,
    pub caliber: Seq<char>,
    pub armor_damage: i32,
    pub fragmentation_chance_bits: u32,
    pub damage: i32,
    pub heavy_bleed_modifier_bits: u32,
    pub initial_speed_bits: u32,
    pub light_bleed_modifier_bits: u32,
    pub penetration_chance_bits: u32,
    pub penetration_power: i32,
    pub penetration_power_deviation_bits: u32,
    pub projectile_count: i32,
    pub recoil_modifier_bits: u32,
    pub ricochet_chance_bits: u32,
    pub stack_max_size: i32,
    pub stamina_burn_per_damage_bits: u32,
    pub tracer: bool,
    pub tracer_color: Seq<char>,
    pub weight_bits: u32,
    pub item_id: Seq<char>,
}

impl DeepView for Ammo {
    type V = AmmoView;

    open spec fn deep_view(&self) -> AmmoView {
        AmmoView {
            accuracy_modifier_bits: self.accuracy_modifier_bits.deep_view(),
            ammo_type: self.ammo_type.deep_view(),
            caliber: self.caliber.deep_view(),
            armor_damage: self.armor_damage.deep_view(),
            fragmentation_chance_bits: self.fragmentation_chance_bits.deep_view(),
            damage: self.damage.deep_view(),
            heavy_bleed_modifier_bits: self.heavy_bleed_modifier_bits.deep_view(),
            initial_speed_bits: self.initial_speed_bits.deep_view(),
            light_bleed_modifier_bits: self.light_bleed_modifier_bits.deep_view(),
            penetration_chance_bits: self.penetration_chance_bits.deep_view(),
            penetration_power: self.penetration_power.deep_view(),
            penetration_power_deviation_bits: self.penetration_power_deviation_bits.deep_view(),
            projectile_count: self.projectile_count.deep_view(),
            recoil_modifier_bits: self.recoil_modifier_bits.deep_view(),
            ricochet_chance_bits: self.ricochet_chance_bits.deep_view(),
            stack_max_size: self.stack_max_size.deep_view(),
            stamina_burn_per_damage_bits: self.stamina_burn_per_damage_bits.deep_view(),
            tracer: self.tracer.deep_view(),
            tracer_color: self.tracer_color.deep_view(),
            weight_bits: self.weight_bits.deep_view(),
            item_id: self.item_id.deep_view(),
        }
    }
}

impl Encodable for Ammo {
    open spec fn enc_of(v: AmmoView) -> Seq<u8> {
        <u32 as Encodable>::enc_of(v.accuracy_modifier_bits)
            + (<String as Encodable>::enc_of(v.ammo_type)
            + (<String as Encodable>::enc_of(v.caliber)
            + (<i32 as Encodable>::enc_of(v.armor_damage)
            + (<u32 as Encodable>::enc_of(v.fragmentation_chance_bits)
            + (<i32 as Encodable>::enc_of(v.damage)
            + (<u32 as Encodable>::enc_of(v.heavy_bleed_modifier_bits)
            + (<u32 as Encodable>::enc_of(v.initial_speed_bits)
            + (<u32 as Encodable>::enc_of(v.light_bleed_modifier_bits)
            + (<u32 as Encodable>::enc_of(v.penetration_chance_bits)
            + (<i32 as Encodable>::enc_of(v.penetration_power)
            + (<u32 as Encodable>::enc_of(v.penetration_power_deviation_bits)
            + (<i32 as Encodable>::enc_of(v.projectile_count)
            + (<u32 as Encodable>::enc_of(v.recoil_modifier_bits)
            + (<u32 as Encodable>::enc_of(v.ricochet_chance_bits)
            + (<i32 as Encodable>::enc_of(v.stack_max_size)
            + (<u32 as Encodable>::enc_of(v.stamina_burn_per_damage_bits)
            + (<bool as Encodable>::enc_of(v.tracer)
            + (<String as Encodable>::enc_of(v.tracer_color)
            + (<u32 as Encodable>::enc_of(v.weight_bits)
            + (<String as Encodable>::enc_of(v.item_id)))))))))))))))))))))
    }

    open spec fn enc_wf(v: AmmoView) -> bool {
        &&& <u32 as Encodable>::enc_wf(v.accuracy_modifier_bits)
        &&& <String as Encodable>::enc_wf(v.ammo_type)
        &&& <String as Encodable>::enc_wf(v.caliber)
        &&& <i32 as Encodable>::enc_wf(v.armor_damage)
        &&& <u32 as Encodable>::enc_wf(v.fragmentation_chance_bits)
        &&& <i32 as Encodable>::enc_wf(v.damage)
        &&& <u32 as Encodable>::enc_wf(v.heavy_bleed_modifier_bits)
        &&& <u32 as Encodable>::enc_wf(v.initial_speed_bits)
        &&& <u32 as Encodable>::enc_wf(v.light_bleed_modifier_bits)
        &&& <u32 as Encodable>::enc_wf(v.penetration_chance_bits)
        &&& <i32 as Encodable>::enc_wf(v.penetration_power)
        &&& <u32 as Encodable>::enc_wf(v.penetration_power_deviation_bits)
        &&& <i32 as Encodable>::enc_wf(v.projectile_count)
        &&& <u32 as Encodable>::enc_wf(v.recoil_modifier_bits)
        &&& <u32 as Encodable>::enc_wf(v.ricochet_chance_bits)
        &&& <i32 as Encodable>::enc_wf(v.stack_max_size)
        &&& <u32 as Encodable>::enc_wf(v.stamina_burn_per_damage_bits)
        &&& <bool as Encodable>::enc_wf(v.tracer)
        &&& <String as Encodable>::enc_wf(v.tracer_color)
        &&& <u32 as Encodable>::enc_wf(v.weight_bits)
        &&& <String as Encodable>::enc_wf(v.item_id)
    }

    open spec fn dec_at(b: Seq<u8>, pos: int) -> Option<(AmmoView, int)> {
        match <u32 as Encodable>::dec_at(b, pos) {
            None => None,
            Some((x0, p0)) => {
                match <String as Encodable>::dec_at(b, p0) {
                    None => None,
                    Some((x1, p1)) => {
                        match <String as Encodable>::dec_at(b, p1) {
                            None => None,
                            Some((x2, p2)) => {
                                match <i32 as Encodable>::dec_at(b, p2) {
                                    None => None,
                                    Some((x3, p3)) => {
                                        match <u32 as Encodable>::dec_at(b, p3) {
                                            None => None,
                                            Some((x4, p4)) => {
                                                match <i32 as Encodable>::dec_at(b, p4) {
                                                    None => None,
                                                    Some((x5, p5)) => {
                                                        match <u32 as Encodable>::dec_at(b, p5) {
                                                            None => None,
                                                            Some((x6, p6)) => {
                                                                match <u32 as Encodable>::dec_at(b, p6) {
                                                                    None => None,
                                                                    Some((x7, p7)) => {
                                                                        match <u32 as Encodable>::dec_at(b, p7) {
                                                                            None => None,
                                                                            Some((x8, p8)) => {
                                                                                match <u32 as Encodable>::dec_at(b, p8) {
                                                                                    None => None,
                                                                                    Some((x9, p9)) => {
                                                                                        match <i32 as Encodable>::dec_at(b, p9) {
                                                                                            None => None,
                                                                                            Some((x10, p10)) => {
                                                                                                match <u32 as Encodable>::dec_at(b, p10) {
                                                                                                    None => None,
                                                                                                    Some((x11, p11)) => {
                                                                                                        match <i32 as Encodable>::dec_at(b, p11) {
                                                                                                            None => None,
                                                                                                            Some((x12, p12)) => {
                                                                                                                match <u32 as Encodable>::dec_at(b, p12) {
                                                                                                                    None => None,
                                                                                                                    Some((x13, p13)) => {
                                                                                                                        match <u32 as Encodable>::dec_at(b, p13) {
                                                                                                                            None => None,
                                                                                                                            Some((x14, p14)) => {
                                                                                                                                match <i32 as Encodable>::dec_at(b, p14) {
                                                                                                                                    None => None,
                                                                                                                                    Some((x15, p15)) => {
                                                                                                                                        match <u32 as Encodable>::dec_at(b, p15) {
                                                                                                                                            None => None,
                                                                                                                                            Some((x16, p16)) => {
                                                                                                                                                match <bool as Encodable>::dec_at(b, p16) {
                                                                                                                                                    None => None,
                                                                                                                                                    Some((x17, p17)) => {
                                                                                                                                                        match <String as Encodable>::dec_at(b, p17) {
                                                                                                                                                            None => None,
                                                                                                                                                            Some((x18, p18)) => {
                                                                                                                                                                match <u32 as Encodable>::dec_at(b, p18) {
                                                                                                                                                                    None => None,
                                                                                                                                                                    Some((x19, p19)) => {
                                                                                                                                                                        match <String as Encodable>::dec_at(b, p19) {
                                                                                                                                                                            None => None,
                                                                                                                                                                            Some((x20, p20)) => 
                                                                                                                                                                            Some((AmmoView {
                                                                                                                                                                                accuracy_modifier_bits: x0,
                                                                                                                                                                                ammo_type: x1,
                                                                                                                                                                                caliber: x2,
                                                                                                                                                                                armor_damage: x3,
                                                                                                                                                                                fragmentation_chance_bits: x4,
                                                                                                                                                                                damage: x5,
                                                                                                                                                                                heavy_bleed_modifier_bits: x6,
                                                                                                                                                                                initial_speed_bits: x7,
                                                                                                                                                                                light_bleed_modifier_bits: x8,
                                                                                                                                                                                penetration_chance_bits: x9,
                                                                                                                                                                                penetration_power: x10,
                                                                                                                                                                                penetration_power_deviation_bits: x11,
                                                                                                                                                                                projectile_count: x12,
                                                                                                                                                                                recoil_modifier_bits: x13,
                                                                                                                                                                                ricochet_chance_bits: x14,
                                                                                                                                                                                stack_max_size: x15,
                                                                                                                                                                                stamina_burn_per_damage_bits: x16,
                                                                                                                                                                                tracer: x17,
                                                                                                                                                                                tracer_color: x18,
                                                                                                                                                                                weight_bits: x19,
                                                                                                                                                                                item_id: x20,
                                                                                                                                                                            }, p20)),
                                                                                                                                                                        }
                                                                                                                                                                    },
                                                                                                                                                                }
                                                                                                                                                            },
                                                                                                                                                        }
                                                                                                                                                    },
                                                                                                                                                }
                                                                                                                                            },
                                                                                                                                        }
                                                                                                                                    },
                                                                                                                                }
                                                                                                                            },
                                                                                                                        }
                                                                                                                    },
                                                                                                                }
                                                                                                            },
                                                                                                        }
                                                                                                    },
                                                                                                }
                                                                                            },
                                                                                        }
                                                                                    },
                                                                                }
                                                                            },
                                                                        }
                                                                    },
                                                                }
                                                            },
                                                        }
                                                    },
                                                }
                                            },
                                        }
                                    },
                                }
                            },
                        }
                    },
                }
            },
        }
    }

    #[verifier::rlimit(100)]
    #[verifier::spinoff_prover]
    proof fn lemma_enc_dec(v: AmmoView, b: Seq<u8>, pos: int) {
        let e0 = <u32 as Encodable>::enc_of(v.accuracy_modifier_bits);
        let e1 = <String as Encodable>::enc_of(v.ammo_type);
        let e2 = <String as Encodable>::enc_of(v.caliber);
        let e3 = <i32 as Encodable>::enc_of(v.armor_damage);
        let e4 = <u32 as Encodable>::enc_of(v.fragmentation_chance_bits);
        let e5 = <i32 as Encodable>::enc_of(v.damage);
        let e6 = <u32 as Encodable>::enc_of(v.heavy_bleed_modifier_bits);
        let e7 = <u32 as Encodable>::enc_of(v.initial_speed_bits);
        let e8 = <u32 as Encodable>::enc_of(v.light_bleed_modifier_bits);
        let e9 = <u32 as Encodable>::enc_of(v.penetration_chance_bits);
        let e10 = <i32 as Encodable>::enc_of(v.penetration_power);
        let e11 = <u32 as Encodable>::enc_of(v.penetration_power_deviation_bits);
        let e12 = <i32 as Encodable>::enc_of(v.projectile_count);
        let e13 = <u32 as Encodable>::enc_of(v.recoil_modifier_bits);
        let e14 = <u32 as Encodable>::enc_of(v.ricochet_chance_bits);
        let e15 = <i32 as Encodable>::enc_of(v.stack_max_size);
        let e16 = <u32 as Encodable>::enc_of(v.stamina_burn_per_damage_bits);
        let e17 = <bool as Encodable>::enc_of(v.tracer);
        let e18 = <String as Encodable>::enc_of(v.tracer_color);
        let e19 = <u32 as Encodable>::enc_of(v.weight_bits);
        let e20 = <String as Encodable>::enc_of(v.item_id);
        let s20 = e20;
        let s19 = e19 + s20;
        let s18 = e18 + s19;
        let s17 = e17 + s18;
        let s16 = e16 + s17;
        let s15 = e15 + s16;
        let s14 = e14 + s15;
        let s13 = e13 + s14;
        let s12 = e12 + s13;
        let s11 = e11 + s12;
        let s10 = e10 + s11;
        let s9 = e9 + s10;
        let s8 = e8 + s9;
        let s7 = e7 + s8;
        let s6 = e6 + s7;
        let s5 = e5 + s6;
        let s4 = e4 + s5;
        let s3 = e3 + s4;
        let s2 = e2 + s3;
        let s1 = e1 + s2;
        let s0 = e0 + s1;
        assert(Self::enc_of(v) == s0);
        let p0 = pos + e0.len() as int;
        let p1 = p0 + e1.len() as int;
        let p2 = p1 + e2.len() as int;
        let p3 = p2 + e3.len() as int;
        let p4 = p3 + e4.len() as int;
        let p5 = p4 + e5.len() as int;
        let p6 = p5 + e6.len() as int;
        let p7 = p6 + e7.len() as int;
        let p8 = p7 + e8.len() as int;
        let p9 = p8 + e9.len() as int;
        let p10 = p9 + e10.len() as int;
        let p11 = p10 + e11.len() as int;
        let p12 = p11 + e12.len() as int;
        let p13 = p12 + e13.len() as int;
        let p14 = p13 + e14.len() as int;
        let p15 = p14 + e15.len() as int;
        let p16 = p15 + e16.len() as int;
        let p17 = p16 + e17.len() as int;
        let p18 = p17 + e18.len() as int;
        let p19 = p18 + e19.len() as int;
        let p20 = p19 + e20.len() as int;
        lemma_concat_parts(b, pos, e0, s1);
        <u32 as Encodable>::lemma_enc_dec(v.accuracy_modifier_bits, b, pos);
        lemma_concat_parts(b, p0, e1, s2);
        <String as Encodable>::lemma_enc_dec(v.ammo_type, b, p0);
        lemma_concat_parts(b, p1, e2, s3);
        <String as Encodable>::lemma_enc_dec(v.caliber, b, p1);
        lemma_concat_parts(b, p2, e3, s4);
        <i32 as Encodable>::lemma_enc_dec(v.armor_damage, b, p2);
        lemma_concat_parts(b, p3, e4, s5);
        <u32 as Encodable>::lemma_enc_dec(v.fragmentation_chance_bits, b, p3);
        lemma_concat_parts(b, p4, e5, s6);
        <i32 as Encodable>::lemma_enc_dec(v.damage, b, p4);
        lemma_concat_parts(b, p5, e6, s7);
        <u32 as Encodable>::lemma_enc_dec(v.heavy_bleed_modifier_bits, b, p5);
        lemma_concat_parts(b, p6, e7, s8);
        <u32 as Encodable>::lemma_enc_dec(v.initial_speed_bits, b, p6);
        lemma_concat_parts(b, p7, e8, s9);
        <u32 as Encodable>::lemma_enc_dec(v.light_bleed_modifier_bits, b, p7);
        lemma_concat_parts(b, p8, e9, s10);
        <u32 as Encodable>::lemma_enc_dec(v.penetration_chance_bits, b, p8);
        lemma_concat_parts(b, p9, e10, s11);
        <i32 as Encodable>::lemma_enc_dec(v.penetration_power, b, p9);
        lemma_concat_parts(b, p10, e11, s12);
        <u32 as Encodable>::lemma_enc_dec(v.penetration_power_deviation_bits, b, p10);
        lemma_concat_parts(b, p11, e12, s13);
        <i32 as Encodable>::lemma_enc_dec(v.projectile_count, b, p11);
        lemma_concat_parts(b, p12, e13, s14);
        <u32 as Encodable>::lemma_enc_dec(v.recoil_modifier_bits, b, p12);
        lemma_concat_parts(b, p13, e14, s15);
        <u32 as Encodable>::lemma_enc_dec(v.ricochet_chance_bits, b, p13);
        lemma_concat_parts(b, p14, e15, s16);
        <i32 as Encodable>::lemma_enc_dec(v.stack_max_size, b, p14);
        lemma_concat_parts(b, p15, e16, s17);
        <u32 as Encodable>::lemma_enc_dec(v.stamina_burn_per_damage_bits, b, p15);
        lemma_concat_parts(b, p16, e17, s18);
        <bool as Encodable>::lemma_enc_dec(v.tracer, b, p16);
        lemma_concat_parts(b, p17, e18, s19);
        <String as Encodable>::lemma_enc_dec(v.tracer_color, b, p17);
        lemma_concat_parts(b, p18, e19, s20);
        <u32 as Encodable>::lemma_enc_dec(v.weight_bits, b, p18);
        <String as Encodable>::lemma_enc_dec(v.item_id, b, p19);
        assert((AmmoView {
            accuracy_modifier_bits: v.accuracy_modifier_bits,
            ammo_type: v.ammo_type,
            caliber: v.caliber,
            armor_damage: v.armor_damage,
            fragmentation_chance_bits: v.fragmentation_chance_bits,
            damage: v.damage,
            heavy_bleed_modifier_bits: v.heavy_bleed_modifier_bits,
            initial_speed_bits: v.initial_speed_bits,
            light_bleed_modifier_bits: v.light_bleed_modifier_bits,
            penetration_chance_bits: v.penetration_chance_bits,
            penetration_power: v.penetration_power,
            penetration_power_deviation_bits: v.penetration_power_deviation_bits,
            projectile_count: v.projectile_count,
            recoil_modifier_bits: v.recoil_modifier_bits,
            ricochet_chance_bits: v.ricochet_chance_bits,
            stack_max_size: v.stack_max_size,
            stamina_burn_per_damage_bits: v.stamina_burn_per_damage_bits,
            tracer: v.tracer,
            tracer_color: v.tracer_color,
            weight_bits: v.weight_bits,
            item_id: v.item_id,
        }) == v);
        assert(Self::dec_at(b, pos) == Some((v, pos + Self::enc_of(v).len() as int)));
    }

    #[verifier::rlimit(100)]
    #[verifier::spinoff_prover]
    fn encode(&self, out: &mut Vec<u8>) {
        let ghost e0 = <u32 as Encodable>::enc_of(self.accuracy_modifier_bits.deep_view());
        let ghost e1 = <String as Encodable>::enc_of(self.ammo_type.deep_view());
        let ghost e2 = <String as Encodable>::enc_of(self.caliber.deep_view());
        let ghost e3 = <i32 as Encodable>::enc_of(self.armor_damage.deep_view());
        let ghost e4 = <u32 as Encodable>::enc_of(self.fragmentation_chance_bits.deep_view());
        let ghost e5 = <i32 as Encodable>::enc_of(self.damage.deep_view());
        let ghost e6 = <u32 as Encodable>::enc_of(self.heavy_bleed_modifier_bits.deep_view());
        let ghost e7 = <u32 as Encodable>::enc_of(self.initial_speed_bits.deep_view());
        let ghost e8 = <u32 as Encodable>::enc_of(self.light_bleed_modifier_bits.deep_view());
        let ghost e9 = <u32 as Encodable>::enc_of(self.penetration_chance_bits.deep_view());
        let ghost e10 = <i32 as Encodable>::enc_of(self.penetration_power.deep_view());
        let ghost e11 = <u32 as Encodable>::enc_of(self.penetration_power_deviation_bits.deep_view());
        let ghost e12 = <i32 as Encodable>::enc_of(self.projectile_count.deep_view());
        let ghost e13 = <u32 as Encodable>::enc_of(self.recoil_modifier_bits.deep_view());
        let ghost e14 = <u32 as Encodable>::enc_of(self.ricochet_chance_bits.deep_view());
        let ghost e15 = <i32 as Encodable>::enc_of(self.stack_max_size.deep_view());
        let ghost e16 = <u32 as Encodable>::enc_of(self.stamina_burn_per_damage_bits.deep_view());
        let ghost e17 = <bool as Encodable>::enc_of(self.tracer.deep_view());
        let ghost e18 = <String as Encodable>::enc_of(self.tracer_color.deep_view());
        let ghost e19 = <u32 as Encodable>::enc_of(self.weight_bits.deep_view());
        let ghost e20 = <String as Encodable>::enc_of(self.item_id.deep_view());
        let ghost t20 = e20;
        let ghost t19 = e19 + t20;
        let ghost t18 = e18 + t19;
        let ghost t17 = e17 + t18;
        let ghost t16 = e16 + t17;
        let ghost t15 = e15 + t16;
        let ghost t14 = e14 + t15;
        let ghost t13 = e13 + t14;
        let ghost t12 = e12 + t13;
        let ghost t11 = e11 + t12;
        let ghost t10 = e10 + t11;
        let ghost t9 = e9 + t10;
        let ghost t8 = e8 + t9;
        let ghost t7 = e7 + t8;
        let ghost t6 = e6 + t7;
        let ghost t5 = e5 + t6;
        let ghost t4 = e4 + t5;
        let ghost t3 = e3 + t4;
        let ghost t2 = e2 + t3;
        let ghost t1 = e1 + t2;
        let ghost t0 = e0 + t1;
        self.accuracy_modifier_bits.encode(out);
        let ghost l0 = out@;
        self.ammo_type.encode(out);
        let ghost l1 = out@;
        self.caliber.encode(out);
        let ghost l2 = out@;
        self.armor_damage.encode(out);
        let ghost l3 = out@;
        self.fragmentation_chance_bits.encode(out);
        let ghost l4 = out@;
        self.damage.encode(out);
        let ghost l5 = out@;
        self.heavy_bleed_modifier_bits.encode(out);
        let ghost l6 = out@;
        self.initial_speed_bits.encode(out);
        let ghost l7 = out@;
        self.light_bleed_modifier_bits.encode(out);
        let ghost l8 = out@;
        self.penetration_chance_bits.encode(out);
        let ghost l9 = out@;
        self.penetration_power.encode(out);
        let ghost l10 = out@;
        self.penetration_power_deviation_bits.encode(out);
        let ghost l11 = out@;
        self.projectile_count.encode(out);
        let ghost l12 = out@;
        self.recoil_modifier_bits.encode(out);
        let ghost l13 = out@;
        self.ricochet_chance_bits.encode(out);
        let ghost l14 = out@;
        self.stack_max_size.encode(out);
        let ghost l15 = out@;
        self.stamina_burn_per_damage_bits.encode(out);
        let ghost l16 = out@;
        self.tracer.encode(out);
        let ghost l17 = out@;
        self.tracer_color.encode(out);
        let ghost l18 = out@;
        self.weight_bits.encode(out);
        let ghost l19 = out@;
        self.item_id.encode(out);
        proof {
            assert(out@ == l19 + t20);
            assert(out@ =~= l18 + t19) by {
                assert(l19 == l18 + e19);
            }
            assert(out@ =~= l17 + t18) by {
                assert(l18 == l17 + e18);
            }
            assert(out@ =~= l16 + t17) by {
                assert(l17 == l16 + e17);
            }
            assert(out@ =~= l15 + t16) by {
                assert(l16 == l15 + e16);
            }
            assert(out@ =~= l14 + t15) by {
                assert(l15 == l14 + e15);
            }
            assert(out@ =~= l13 + t14) by {
                assert(l14 == l13 + e14);
            }
            assert(out@ =~= l12 + t13) by {
                assert(l13 == l12 + e13);
            }
            assert(out@ =~= l11 + t12) by {
                assert(l12 == l11 + e12);
            }
            assert(out@ =~= l10 + t11) by {
                assert(l11 == l10 + e11);
            }
            assert(out@ =~= l9 + t10) by {
                assert(l10 == l9 + e10);
            }
            assert(out@ =~= l8 + t9) by {
                assert(l9 == l8 + e9);
            }
            assert(out@ =~= l7 + t8) by {
                assert(l8 == l7 + e8);
            }
            assert(out@ =~= l6 + t7) by {
                assert(l7 == l6 + e7);
            }
            assert(out@ =~= l5 + t6) by {
                assert(l6 == l5 + e6);
            }
            assert(out@ =~= l4 + t5) by {
                assert(l5 == l4 + e5);
            }
            assert(out@ =~= l3 + t4) by {
                assert(l4 == l3 + e4);
            }
            assert(out@ =~= l2 + t3) by {
                assert(l3 == l2 + e3);
            }
            assert(out@ =~= l1 + t2) by {
                assert(l2 == l1 + e2);
            }
            assert(out@ =~= l0 + t1) by {
                assert(l1 == l0 + e1);
            }
            assert(out@ =~= old(out)@ + t0) by {
                assert(l0 == old(out)@ + e0);
            }
            assert(final(out)@ == old(out)@ + Self::enc_of(self.deep_view()));
        }
    }

    fn decode(buf: &Vec<u8>, pos: usize) -> (r: Option<(Self, usize)>) {
        let (x0, p0) = match <u32 as Encodable>::decode(buf, pos) {
            None => {
                return None;
            },
            Some(x) => x,
        };
        let (x1, p1) = match <String as Encodable>::decode(buf, p0) {
            None => {
                return None;
            },
            Some(x) => x,
        };
        let (x2, p2) = match <String as Encodable>::decode(buf, p1) {
            None => {
                return None;
            },
            Some(x) => x,
        };
        let (x3, p3) = match <i32 as Encodable>::decode(buf, p2) {
            None => {
                return None;
            },
            Some(x) => x,
        };
        let (x4, p4) = match <u32 as Encodable>::decode(buf, p3) {
            None => {
                return None;
            },
            Some(x) => x,
        };
        let (x5, p5) = match <i32 as Encodable>::decode(buf, p4) {
            None => {
                return None;
            },
            Some(x) => x,
        };
        let (x6, p6) = match <u32 as Encodable>::decode(buf, p5) {
            None => {
                return None;
            },
            Some(x) => x,
        };
        let (x7, p7) = match <u32 as Encodable>::decode(buf, p6) {
            None => {
                return None;
            },
            Some(x) => x,
        };
        let (x8, p8) = match <u32 as Encodable>::decode(buf, p7) {
            None => {
                return None;
            },
            Some(x) => x,
        };
        let (x9, p9) = match <u32 as Encodable>::decode(buf, p8) {
            None => {
                return None;
            },
            Some(x) => x,
        };
        let (x10, p10) = match <i32 as Encodable>::decode(buf, p9) {
            None => {
                return None;
            },
            Some(x) => x,
        };
        let (x11, p11) = match <u32 as Encodable>::decode(buf, p10) {
            None => {
                return None;
            },
            Some(x) => x,
        };
        let (x12, p12) = match <i32 as Encodable>::decode(buf, p11) {
            None => {
                return None;
            },
            Some(x) => x,
        };
        let (x13, p13) = match <u32 as Encodable>::decode(buf, p12) {
            None => {
                return None;
            },
            Some(x) => x,
        };
        let (x14, p14) = match <u32 as Encodable>::decode(buf, p13) {
            None => {
                return None;
            },
            Some(x) => x,
        };
        let (x15, p15) = match <i32 as Encodable>::decode(buf, p14) {
            None => {
                return None;
            },
            Some(x) => x,
        };
        let (x16, p16) = match <u32 as Encodable>::decode(buf, p15) {
            None => {
                return None;
            },
            Some(x) => x,
        };
        let (x17, p17) = match <bool as Encodable>::decode(buf, p16) {
            None => {
                return None;
            },
            Some(x) => x,
        };
        let (x18, p18) = match <String as Encodable>::decode(buf, p17) {
            None => {
                return None;
            },
            Some(x) => x,
        };
        let (x19, p19) = match <u32 as Encodable>::decode(buf, p18) {
            None => {
                return None;
            },
            Some(x) => x,
        };
        let (x20, p20) = match <String as Encodable>::decode(buf, p19) {
            None => {
                return None;
            },
            Some(x) => x,
        };
        Some((Ammo {
            accuracy_modifier_bits: x0,
            ammo_type: x1,
            caliber: x2,
            armor_damage: x3,
            fragmentation_chance_bits: x4,
            damage: x5,
            heavy_bleed_modifier_bits: x6,
            initial_speed_bits: x7,
            light_bleed_modifier_bits: x8,
            penetration_chance_bits: x9,
            penetration_power: x10,
            penetration_power_deviation_bits: x11,
            projectile_count: x12,
            recoil_modifier_bits: x13,
            ricochet_chance_bits: x14,
            stack_max_size: x15,
            stamina_burn_per_damage_bits: x16,
            tracer: x17,
            tracer_color: x18,
            weight_bits: x19,
            item_id: x20,
        }, p20))
    }
}
impl Item {
    /// Lifts a bare item row into an `Item` with no offers attached yet.
    pub fn from_db(row: ItemFromDB) -> (r: Item)
        ensures
            r._id == row._id,
            r.item_name == row.item_name,
            r.short_name == row.short_name,
            r.avg_24h_price == row.avg_24h_price,
            r.base_price == row.base_price,
            r.change_last_48h_percent_bits == row.change_last_48h_percent_bits,
            r.width == row.width,
            r.height == row.height,
            r.wiki == row.wiki,
            r.item_types == row.item_types,
            r.buy_from_flea_instant_profit == row.buy_from_flea_instant_profit,
            r.buy_from_trader_instant_profit == row.buy_from_trader_instant_profit,
            r.per_slot == row.per_slot,
            r.is_flea == row.is_flea,
            r.buys@.len() == 0,
            r.sells@.len() == 0,
    {
        Item {
            _id: row._id,
            item_name: row.item_name,
            short_name: row.short_name,
            avg_24h_price: row.avg_24h_price,
            base_price: row.base_price,
            change_last_48h_percent_bits: row.change_last_48h_percent_bits,
            width: row.width,
            height: row.height,
            wiki: row.wiki,
            item_types: row.item_types,
            buy_from_flea_instant_profit: row.buy_from_flea_instant_profit,
            buy_from_trader_instant_profit: row.buy_from_trader_instant_profit,
            per_slot: row.per_slot,
            is_flea: row.is_flea,
            buys: Vec::new(),
            sells: Vec::new(),
        }
    }
}

impl Task {
    /// Lifts a bare task row into a `Task` with nothing attached yet.
    pub fn from_db(row: TaskFromDB) -> (r: Task)
        ensures
            r._id == row._id,
            r.task_name == row.task_name,
            r.min_player_level == row.min_player_level,
            r.trader == row.trader,
            r.faction_name == row.faction_name,
            r.kappa_required == row.kappa_required,
            r.lightkeeper_required == row.lightkeeper_required,
            r.wiki == row.wiki,
            r.objectives@.len() == 0,
            r.task_requirements@.len() == 0,
    {
        Task {
            _id: row._id,
            task_name: row.task_name,
            min_player_level: row.min_player_level,
            trader: row.trader,
            faction_name: row.faction_name,
            kappa_required: row.kappa_required,
            lightkeeper_required: row.lightkeeper_required,
            wiki: row.wiki,
            objectives: Vec::new(),
            task_requirements: Vec::new(),
        }
    }
}

} // verus!

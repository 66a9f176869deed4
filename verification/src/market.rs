use crate::models::card::Card;
use crate::models::landmark::Landmark;
use vstd::prelude::*;

verus! {

/// The number of distinct types that a face-up display holds when full.
pub const FACE_UP_LIMIT: usize = 5;

/// One type on display, with the number of copies lying there.
#[derive(Clone, Copy, Debug, PartialEq, Eq, Structural)]
pub struct Slot<T> {
    pub tag: T,
    pub count: u8,
}

/// The mathematical model of a draw pile and its face-up display. The top of
/// the pile is the end of `deck`.
pub struct MarketView<T> {
    pub deck: Seq<T>,
    pub face_up: Seq<Slot<T>>,
}

/// Some slot of `face_up` shows `tag`.
pub open spec fn on_display<T>(face_up: Seq<Slot<T>>, tag: T) -> bool {
    exists|i: int| 0 <= i < face_up.len() && (#[trigger] face_up[i]).tag == tag
}

/// The index of a slot of `face_up` that shows `tag`, where there is one.
pub open spec fn slot_of<T>(face_up: Seq<Slot<T>>, tag: T) -> int {
    choose|i: int| 0 <= i < face_up.len() && (#[trigger] face_up[i]).tag == tag
}

/// No two slots of `face_up` show the same type.
pub open spec fn distinct_tags<T>(face_up: Seq<Slot<T>>) -> bool {
    forall|i: int, j: int|
        0 <= i < face_up.len() && 0 <= j < face_up.len() && i != j ==> (#[trigger] face_up[i]).tag != (
        #[trigger] face_up[j]).tag
}

/// The types that `face_up` shows.
pub open spec fn displayed_tags<T>(face_up: Seq<Slot<T>>) -> Set<T> {
    Set::new(|tag: T| on_display(face_up, tag))
}

/// The display with one more copy of `tag`: in its slot if it has one, else
/// in a new slot at the end.
pub open spec fn with_copy_added<T>(face_up: Seq<Slot<T>>, tag: T) -> Seq<Slot<T>> {
    if on_display(face_up, tag) {
        let i = slot_of(face_up, tag);
        face_up.update(i, Slot { tag, count: (face_up[i].count + 1) as u8 })
    } else {
        face_up.push(Slot { tag, count: 1 })
    }
}

/// The display with one copy of `tag` fewer; its slot goes when the last copy
/// does. Unchanged if `tag` is not on display.
pub open spec fn with_copy_taken<T>(face_up: Seq<Slot<T>>, tag: T) -> Seq<Slot<T>> {
    if on_display(face_up, tag) {
        let i = slot_of(face_up, tag);
        if face_up[i].count > 1 {
            face_up.update(i, Slot { tag, count: (face_up[i].count - 1) as u8 })
        } else {
            face_up.remove(i)
        }
    } else {
        face_up
    }
}

impl<T> MarketView<T> {
    /// The market's invariant: the display shows at most five types, each
    /// once and with at least one copy, and the counts leave room for every
    /// card still in the pile.
    pub open spec fn wf(self) -> bool {
        &&& self.face_up.len() <= FACE_UP_LIMIT
        &&& distinct_tags(self.face_up)
        &&& self.deck.len() <= u8::MAX
        &&& forall|i: int|
            0 <= i < self.face_up.len() ==> 1 <= (#[trigger] self.face_up[i]).count && self.face_up[i].count
                + self.deck.len() <= u8::MAX
    }

    /// The display is full, or the pile has nothing left to fill it with.
    pub open spec fn stocked(self) -> bool {
        self.face_up.len() >= FACE_UP_LIMIT || self.deck.len() == 0
    }

    /// The types that can still be had: those in the pile and those on display.
    pub open spec fn remaining_tags(self) -> Set<T> {
        self.deck.to_set().union(displayed_tags(self.face_up))
    }

    /// The market after the top card of the pile has gone on display.
    pub open spec fn with_top_revealed(self) -> MarketView<T> {
        MarketView {
            deck: self.deck.drop_last(),
            face_up: with_copy_added(self.face_up, self.deck.last()),
        }
    }

    /// The market after refilling: while the display shows fewer than five
    /// types and the pile is not empty, the top card of the pile goes on
    /// display.
    pub open spec fn refilled(self) -> MarketView<T>
        decreases self.deck.len(),
    {
        if self.face_up.len() < FACE_UP_LIMIT && self.deck.len() > 0 {
            self.with_top_revealed().refilled()
        } else {
            self
        }
    }

    /// The market after one copy of `tag` has been taken from the display and
    /// the display refilled. Unchanged if `tag` is not on display.
    pub open spec fn with_purchase(self, tag: T) -> MarketView<T> {
        if on_display(self.face_up, tag) {
            (MarketView { deck: self.deck, face_up: with_copy_taken(self.face_up, tag) }).refilled()
        } else {
            self
        }
    }
}

/// In a display without repeated types, the slot of a type is the only index
/// that shows it.
proof fn lemma_slot_of_is_unique<T>(face_up: Seq<Slot<T>>, i: int)
    requires
        distinct_tags(face_up),
        0 <= i < face_up.len(),
    ensures
        on_display(face_up, face_up[i].tag),
        slot_of(face_up, face_up[i].tag) == i,
{
    let tag = face_up[i].tag;
    assert(on_display(face_up, tag));
    let k = slot_of(face_up, tag);
    assert(0 <= k < face_up.len() && face_up[k].tag == tag);
}

/// Adding a copy keeps what the display shows apart from the one type added.
proof fn lemma_with_copy_added<T>(mv: MarketView<T>)
    requires
        mv.wf(),
        mv.deck.len() > 0,
        mv.face_up.len() < FACE_UP_LIMIT,
    ensures
        mv.with_top_revealed().wf(),
        mv.face_up.len() <= mv.with_top_revealed().face_up.len() <= mv.face_up.len() + 1,
        forall|tag: T|
            on_display(mv.with_top_revealed().face_up, tag) <==> (on_display(mv.face_up, tag) || tag
                == mv.deck.last()),
{
    let tag = mv.deck.last();
    let after = mv.with_top_revealed();
    if on_display(mv.face_up, tag) {
        let i = slot_of(mv.face_up, tag);
        assert(mv.face_up[i].count + mv.deck.len() <= u8::MAX);
        assert forall|t: T| on_display(after.face_up, t) <==> (on_display(mv.face_up, t) || t
            == tag) by {
            if on_display(after.face_up, t) {
                let k = slot_of(after.face_up, t);
                assert(mv.face_up[k].tag == t);
            }
            if on_display(mv.face_up, t) {
                let k = slot_of(mv.face_up, t);
                assert(after.face_up[k].tag == t);
            }
        }
        assert forall|a: int, b: int|
            0 <= a < after.face_up.len() && 0 <= b < after.face_up.len() && a != b implies (
        #[trigger] after.face_up[a]).tag != (#[trigger] after.face_up[b]).tag by {
            assert(after.face_up[a].tag == mv.face_up[a].tag);
            assert(after.face_up[b].tag == mv.face_up[b].tag);
        }
        assert forall|k: int| 0 <= k < after.face_up.len() implies 1 <= (
        #[trigger] after.face_up[k]).count && after.face_up[k].count + after.deck.len()
            <= u8::MAX by {
            assert(mv.face_up[k].count + mv.deck.len() <= u8::MAX);
        }
    } else {
        assert forall|t: T| on_display(after.face_up, t) <==> (on_display(mv.face_up, t) || t
            == tag) by {
            if on_display(after.face_up, t) {
                let k = slot_of(after.face_up, t);
                if k < mv.face_up.len() {
                    assert(mv.face_up[k].tag == t);
                }
            }
            if on_display(mv.face_up, t) {
                let k = slot_of(mv.face_up, t);
                assert(after.face_up[k].tag == t);
            }
            if t == tag {
                assert(after.face_up[mv.face_up.len() as int].tag == t);
            }
        }
        assert forall|a: int, b: int|
            0 <= a < after.face_up.len() && 0 <= b < after.face_up.len() && a != b implies (
        #[trigger] after.face_up[a]).tag != (#[trigger] after.face_up[b]).tag by {
            if a < mv.face_up.len() {
                assert(after.face_up[a] == mv.face_up[a]);
            }
            if b < mv.face_up.len() {
                assert(after.face_up[b] == mv.face_up[b]);
            }
        }
        assert forall|k: int| 0 <= k < after.face_up.len() implies 1 <= (
        #[trigger] after.face_up[k]).count && after.face_up[k].count + after.deck.len()
            <= u8::MAX by {
            if k < mv.face_up.len() {
                assert(mv.face_up[k].count + mv.deck.len() <= u8::MAX);
            }
        }
    }
}

/// Revealing the top card neither adds to nor takes from the types that can
/// still be had.
proof fn lemma_reveal_keeps_remaining_tags<T>(mv: MarketView<T>)
    requires
        mv.wf(),
        mv.deck.len() > 0,
        mv.face_up.len() < FACE_UP_LIMIT,
    ensures
        mv.with_top_revealed().remaining_tags() == mv.remaining_tags(),
{
    lemma_with_copy_added(mv);
    let after = mv.with_top_revealed();
    let top = mv.deck.last();
    assert forall|t: T| after.remaining_tags().contains(t) <==> mv.remaining_tags().contains(t) by {
        if mv.deck.to_set().contains(t) {
            let k = choose|k: int| 0 <= k < mv.deck.len() && mv.deck[k] == t;
            if k < mv.deck.len() - 1 {
                assert(after.deck[k] == t);
                assert(after.deck.to_set().contains(t));
            }
        }
        if after.deck.to_set().contains(t) {
            let k = choose|k: int| 0 <= k < after.deck.len() && after.deck[k] == t;
            assert(mv.deck[k] == t);
            assert(mv.deck.to_set().contains(t));
        }
        assert(mv.deck[mv.deck.len() - 1] == top);
        assert(mv.deck.to_set().contains(top));
    }
    assert(after.remaining_tags() =~= mv.remaining_tags());
}

/// Refilling keeps the invariant and the types that can still be had, and
/// leaves the market stocked.
pub proof fn lemma_refilled<T>(mv: MarketView<T>)
    requires
        mv.wf(),
    ensures
        mv.refilled().wf(),
        mv.refilled().stocked(),
        mv.refilled().remaining_tags() == mv.remaining_tags(),
        mv.refilled().deck.len() <= mv.deck.len(),
    decreases mv.deck.len(),
{
    if mv.face_up.len() < FACE_UP_LIMIT && mv.deck.len() > 0 {
        lemma_with_copy_added(mv);
        lemma_reveal_keeps_remaining_tags(mv);
        lemma_refilled(mv.with_top_revealed());
    }
}

/// Refilling twice is refilling once: a stocked market is left as it is.
pub proof fn lemma_refill_is_idempotent<T>(mv: MarketView<T>)
    requires
        mv.wf(),
    ensures
        mv.stocked() ==> mv.refilled() == mv,
        mv.refilled().refilled() == mv.refilled(),
{
    lemma_refilled(mv);
}

/// The types on display are as many as the slots.
proof fn lemma_displayed_tags_len<T>(face_up: Seq<Slot<T>>)
    requires
        distinct_tags(face_up),
    ensures
        displayed_tags(face_up).finite(),
        displayed_tags(face_up).len() == face_up.len(),
    decreases face_up.len(),
{
    if face_up.len() == 0 {
        assert(displayed_tags(face_up) =~= Set::<T>::empty());
    } else {
        let rest = face_up.drop_last();
        let last = face_up.last();
        assert forall|i: int, j: int|
            0 <= i < rest.len() && 0 <= j < rest.len() && i != j implies (#[trigger] rest[i]).tag != (
        #[trigger] rest[j]).tag by {
            assert(rest[i] == face_up[i]);
            assert(rest[j] == face_up[j]);
        }
        lemma_displayed_tags_len(rest);
        assert(!displayed_tags(rest).contains(last.tag)) by {
            if on_display(rest, last.tag) {
                let k = slot_of(rest, last.tag);
                assert(rest[k] == face_up[k]);
                assert(face_up[face_up.len() - 1].tag == last.tag);
            }
        }
        assert forall|t: T| displayed_tags(face_up).contains(t) <==> displayed_tags(rest).insert(
            last.tag,
        ).contains(t) by {
            if on_display(face_up, t) {
                let k = slot_of(face_up, t);
                if k < rest.len() {
                    assert(rest[k].tag == t);
                }
            }
            if on_display(rest, t) {
                let k = slot_of(rest, t);
                assert(face_up[k].tag == t);
            }
            if t == last.tag {
                assert(face_up[face_up.len() - 1].tag == t);
            }
        }
        assert(displayed_tags(face_up) =~= displayed_tags(rest).insert(last.tag));
    }
}

/// The market invariant: a well-formed, stocked market shows exactly
/// min(5, n) types, where n is the number of distinct types that remain in
/// the pile or on display.
pub proof fn lemma_display_holds_min_of_limit_and_remaining<T>(mv: MarketView<T>)
    requires
        mv.wf(),
        mv.stocked(),
    ensures
        mv.remaining_tags().finite(),
        mv.face_up.len() == if mv.remaining_tags().len() < FACE_UP_LIMIT {
            mv.remaining_tags().len()
        } else {
            FACE_UP_LIMIT as nat
        },
{
    lemma_displayed_tags_len(mv.face_up);
    vstd::seq_lib::seq_to_set_is_finite(mv.deck);
    vstd::set::axiom_set_union_finite(mv.deck.to_set(), displayed_tags(mv.face_up));
    if mv.deck.len() == 0 {
        assert(mv.deck.to_set() =~= Set::<T>::empty());
        assert(mv.remaining_tags() =~= displayed_tags(mv.face_up));
    } else {
        vstd::set_lib::lemma_len_subset(displayed_tags(mv.face_up), mv.remaining_tags());
    }
}

/// A draw pile of establishments with its face-up display.
#[derive(Clone, Debug)]
pub struct CardMarket {
    pub deck: Vec<Card>,
    pub face_up: Vec<Slot<Card>>,
}

impl View for CardMarket {
    type V = MarketView<Card>;

    open spec fn view(&self) -> MarketView<Card> {
        MarketView { deck: self.deck@, face_up: self.face_up@ }
    }
}

impl CardMarket {
    /// A market over `deck` with nothing on display yet, refilled.
    pub fn open(deck: Vec<Card>) -> (market: CardMarket)
        requires
            deck@.len() <= u8::MAX,
        ensures
            market@ == (MarketView { deck: deck@, face_up: Seq::<Slot<Card>>::empty() }).refilled(),
            market@.wf(),
            market@.stocked(),
    {
        let mut market = CardMarket { deck, face_up: Vec::new() };
        market.refill();
        market
    }

    /// The index of the slot that shows `card`, if one does.
    pub fn position(&self, card: Card) -> (slot: Option<usize>)
        requires
            distinct_tags(self.face_up@),
        ensures
            slot is Some <==> on_display(self.face_up@, card),
            slot matches Some(i) ==> i as int == slot_of(self.face_up@, card) && i < self.face_up@.len(),
    {
        let mut i: usize = 0;
        while i < self.face_up.len()
            invariant
                i <= self.face_up@.len(),
                distinct_tags(self.face_up@),
                forall|j: int| 0 <= j < i ==> (#[trigger] self.face_up@[j]).tag != card,
            decreases self.face_up.len() - i,
        {
            if self.face_up[i].tag == card {
                proof {
                    lemma_slot_of_is_unique(self.face_up@, i as int);
                }
                return Some(i);
            }
            i = i + 1;
        }
        None
    }

    /// Whether `card` is on display.
    pub fn shows(&self, card: Card) -> (shown: bool)
        requires
            distinct_tags(self.face_up@),
        ensures
            shown == on_display(self.face_up@, card),
    {
        self.position(card).is_some()
    }

    /// Refills the display from the top of the pile.
    pub fn refill(&mut self)
        requires
            old(self)@.wf(),
        ensures
            final(self)@ == old(self)@.refilled(),
            final(self)@.wf(),
            final(self)@.stocked(),
    {
        proof {
            lemma_refilled(self@);
        }
        while self.face_up.len() < FACE_UP_LIMIT && self.deck.len() > 0
            invariant
                self@.wf(),
                self@.refilled() == old(self)@.refilled(),
            decreases self.deck.len(),
        {
            proof {
                lemma_with_copy_added(self@);
            }
            let ghost before = self@;
            let top: Option<Card> = self.deck.pop();
            match top {
                Some(card) => {
                    match self.position(card) {
                        Some(i) => {
                            let count: u8 = self.face_up[i].count;
                            assert(count + before.deck.len() <= u8::MAX);
                            self.face_up[i] = Slot { tag: card, count: count + 1 };
                        },
                        None => {
                            self.face_up.push(Slot { tag: card, count: 1 });
                        },
                    }
                },
                None => {},
            }
            assert(self@.deck == before.deck.drop_last());
            assert(self@ == before.with_top_revealed());
        }
    }

    /// Takes one copy of `card` from the display and refills it. Returns
    /// `false`, and changes nothing, if `card` is not on display.
    pub fn remove(&mut self, card: Card) -> (taken: bool)
        requires
            old(self)@.wf(),
        ensures
            taken == on_display(old(self)@.face_up, card),
            final(self)@ == old(self)@.with_purchase(card),
            final(self)@.wf(),
            old(self)@.stocked() ==> final(self)@.stocked(),
    {
        match self.position(card) {
            Some(i) => {
                let count: u8 = self.face_up[i].count;
                let ghost before = self@;
                if count > 1 {
                    self.face_up[i] = Slot { tag: card, count: count - 1 };
                } else {
                    self.face_up.remove(i);
                }
                proof {
                    lemma_with_copy_taken(before, card);
                }
                self.refill();
                true
            },
            None => false,
        }
    }
}

/// The draw pile of landmarks with its face-up display. Every landmark type
/// exists once, so every count is one in play.
#[derive(Clone, Debug)]
pub struct LandmarkMarket {
    pub deck: Vec<Landmark>,
    pub face_up: Vec<Slot<Landmark>>,
}

impl View for LandmarkMarket {
    type V = MarketView<Landmark>;

    open spec fn view(&self) -> MarketView<Landmark> {
        MarketView { deck: self.deck@, face_up: self.face_up@ }
    }
}

impl LandmarkMarket {
    /// A market over `deck` with nothing on display yet, refilled.
    pub fn open(deck: Vec<Landmark>) -> (market: LandmarkMarket)
        requires
            deck@.len() <= u8::MAX,
        ensures
            market@ == (MarketView { deck: deck@, face_up: Seq::<Slot<Landmark>>::empty() }).refilled(),
            market@.wf(),
            market@.stocked(),
    {
        let mut market = LandmarkMarket { deck, face_up: Vec::new() };
        market.refill();
        market
    }

    /// The index of the slot that shows `landmark`, if one does.
    pub fn position(&self, landmark: Landmark) -> (slot: Option<usize>)
        requires
            distinct_tags(self.face_up@),
        ensures
            slot is Some <==> on_display(self.face_up@, landmark),
            slot matches Some(i) ==> i as int == slot_of(self.face_up@, landmark) && i < self.face_up@.len(),
    {
        let mut i: usize = 0;
        while i < self.face_up.len()
            invariant
                i <= self.face_up@.len(),
                distinct_tags(self.face_up@),
                forall|j: int| 0 <= j < i ==> (#[trigger] self.face_up@[j]).tag != landmark,
            decreases self.face_up.len() - i,
        {
            if self.face_up[i].tag == landmark {
                proof {
                    lemma_slot_of_is_unique(self.face_up@, i as int);
                }
                return Some(i);
            }
            i = i + 1;
        }
        None
    }

    /// Whether `landmark` is on display.
    pub fn shows(&self, landmark: Landmark) -> (shown: bool)
        requires
            distinct_tags(self.face_up@),
        ensures
            shown == on_display(self.face_up@, landmark),
    {
        self.position(landmark).is_some()
    }

    /// Refills the display from the top of the pile.
    pub fn refill(&mut self)
        requires
            old(self)@.wf(),
        ensures
            final(self)@ == old(self)@.refilled(),
            final(self)@.wf(),
            final(self)@.stocked(),
    {
        proof {
            lemma_refilled(self@);
        }
        while self.face_up.len() < FACE_UP_LIMIT && self.deck.len() > 0
            invariant
                self@.wf(),
                self@.refilled() == old(self)@.refilled(),
            decreases self.deck.len(),
        {
            proof {
                lemma_with_copy_added(self@);
            }
            let ghost before = self@;
            let top: Option<Landmark> = self.deck.pop();
            match top {
                Some(landmark) => {
                    match self.position(landmark) {
                        Some(i) => {
                            let count: u8 = self.face_up[i].count;
                            assert(count + before.deck.len() <= u8::MAX);
                            self.face_up[i] = Slot { tag: landmark, count: count + 1 };
                        },
                        None => {
                            self.face_up.push(Slot { tag: landmark, count: 1 });
                        },
                    }
                },
                None => {},
            }
            assert(self@.deck == before.deck.drop_last());
            assert(self@ == before.with_top_revealed());
        }
    }

    /// Takes one copy of `landmark` from the display and refills it. Returns
    /// `false`, and changes nothing, if `landmark` is not on display.
    pub fn remove(&mut self, landmark: Landmark) -> (taken: bool)
        requires
            old(self)@.wf(),
        ensures
            taken == on_display(old(self)@.face_up, landmark),
            final(self)@ == old(self)@.with_purchase(landmark),
            final(self)@.wf(),
            old(self)@.stocked() ==> final(self)@.stocked(),
    {
        match self.position(landmark) {
            Some(i) => {
                let count: u8 = self.face_up[i].count;
                let ghost before = self@;
                if count > 1 {
                    self.face_up[i] = Slot { tag: landmark, count: count - 1 };
                } else {
                    self.face_up.remove(i);
                }
                proof {
                    lemma_with_copy_taken(before, landmark);
                }
                self.refill();
                true
            },
            None => false,
        }
    }
}

/// Taking a copy from the display keeps the invariant.
proof fn lemma_with_copy_taken<T>(mv: MarketView<T>, tag: T)
    requires
        mv.wf(),
        on_display(mv.face_up, tag),
    ensures
        (MarketView { deck: mv.deck, face_up: with_copy_taken(mv.face_up, tag) }).wf(),
{
    let i = slot_of(mv.face_up, tag);
    let after = with_copy_taken(mv.face_up, tag);
    if mv.face_up[i].count > 1 {
        assert forall|a: int, b: int|
            0 <= a < after.len() && 0 <= b < after.len() && a != b implies (#[trigger] after[a]).tag != (
        #[trigger] after[b]).tag by {
            assert(after[a].tag == mv.face_up[a].tag);
            assert(after[b].tag == mv.face_up[b].tag);
        }
        assert forall|k: int| 0 <= k < after.len() implies 1 <= (#[trigger] after[k]).count
            && after[k].count + mv.deck.len() <= u8::MAX by {
            assert(mv.face_up[k].count + mv.deck.len() <= u8::MAX);
        }
    } else {
        assert forall|a: int, b: int|
            0 <= a < after.len() && 0 <= b < after.len() && a != b implies (#[trigger] after[a]).tag != (
        #[trigger] after[b]).tag by {
            let a0 = if a < i {
                a
            } else {
                a + 1
            };
            let b0 = if b < i {
                b
            } else {
                b + 1
            };
            assert(after[a] == mv.face_up[a0]);
            assert(after[b] == mv.face_up[b0]);
        }
        assert forall|k: int| 0 <= k < after.len() implies 1 <= (#[trigger] after[k]).count
            && after[k].count + mv.deck.len() <= u8::MAX by {
            let k0 = if k < i {
                k
            } else {
                k + 1
            };
            assert(after[k] == mv.face_up[k0]);
            assert(mv.face_up[k0].count + mv.deck.len() <= u8::MAX);
        }
    }
}

} // verus!

//! Merging several streams of items into one.

use vstd::prelude::*;

verus! {

/// What one of the merged inputs does.
#[derive(Debug, PartialEq, Eq)]
pub enum Input<T> {
    /// It gives an item.
    Item(T),
    /// It closes.
    Closed,
}

/// What the merged output does in turn.
#[derive(Debug, PartialEq, Eq)]
pub enum Output<T> {
    /// It gives this item.
    Item(T),
    /// It does nothing.
    Nothing,
    /// It closes.
    Close,
}

/// Something that one of the inputs does.
#[verifier::reject_recursive_types(T)]
pub struct MuxEvent<T> {
    /// The index of the input.
    pub from: int,
    pub what: Input<T>,
}

/// This many inputs, each of them open.
pub open spec fn all_open(inputs: nat) -> Seq<bool> {
    Seq::new(inputs, |i: int| true)
}

/// Whether none of the inputs is open.
pub open spec fn all_closed(open: Seq<bool>) -> bool {
    forall|i: int| 0 <= i < open.len() ==> !#[trigger] open[i]
}

/// The inputs that are open after one of them did something.
pub open spec fn open_after<T>(open: Seq<bool>, event: MuxEvent<T>) -> Seq<bool> {
    match event.what {
        Input::Item(_) => open,
        Input::Closed => open.update(event.from, false),
    }
}

/// What the output does when one of the inputs does something.
pub open spec fn output<T>(open: Seq<bool>, event: MuxEvent<T>) -> Output<T> {
    match event.what {
        Input::Item(item) => Output::Item(item),
        Input::Closed => if all_closed(open_after(open, event)) {
            Output::Close
        } else {
            Output::Nothing
        },
    }
}

/// Merges several inputs into one output, which gives each item as it comes and
/// closes only when all inputs have closed.
#[derive(Debug)]
pub struct Muxer {
    open: Vec<bool>,
}

impl View for Muxer {
    type V = Seq<bool>;

    closed spec fn view(&self) -> Seq<bool> {
        self.open@
    }
}

/// Merges the given number of inputs, all of them open.
pub fn muxer(inputs: usize) -> (mux: Muxer)
    ensures
        mux@ == all_open(inputs as nat),
{
    let mut open: Vec<bool> = Vec::new();
    let mut i: usize = 0;
    while i < inputs
        invariant
            i <= inputs,
            open@ == all_open(i as nat),
        decreases inputs - i,
    {
        open.push(true);
        i += 1;
        assert(open@ =~= all_open(i as nat));
    }
    Muxer { open }
}

impl Muxer {
    /// Whether the input with this index is still open.
    pub fn is_open(&self, input: usize) -> (yes: bool)
        ensures
            yes == (input < self@.len() && self@[input as int]),
    {
        input < self.open.len() && self.open[input]
    }

    /// Whether the output is closed.
    pub fn is_closed(&self) -> (yes: bool)
        ensures
            yes == all_closed(self@),
    {
        let mut i: usize = 0;
        while i < self.open.len()
            invariant
                i <= self.open.len(),
                forall|k: int| 0 <= k < i ==> !#[trigger] self@[k],
            decreases self.open.len() - i,
        {
            if self.open[i] {
                assert(self@[i as int]);
                return false;
            }
            i += 1;
        }
        true
    }

    /// Takes in what an input does and decides what the output does.
    pub fn step<T>(&mut self, from: usize, what: Input<T>) -> (out: Output<T>)
        requires
            from < old(self)@.len(),
            old(self)@[from as int],
        ensures
            final(self)@ == open_after(old(self)@, (MuxEvent { from: from as int, what })),
            out == output(old(self)@, (MuxEvent { from: from as int, what })),
    {
        match what {
            Input::Item(item) => Output::Item(item),
            Input::Closed => {
                self.open.set(from, false);
                if self.is_closed() {
                    Output::Close
                } else {
                    Output::Nothing
                }
            },
        }
    }
}

/// The inputs that are open after all of these events.
pub open spec fn open_after_all<T>(open: Seq<bool>, events: Seq<MuxEvent<T>>) -> Seq<bool>
    decreases events.len(),
{
    if events.len() == 0 {
        open
    } else {
        open_after(open_after_all(open, events.drop_last()), events.last())
    }
}

/// Whether each of the events comes from an input that is open at the time.
pub open spec fn possible<T>(open: Seq<bool>, events: Seq<MuxEvent<T>>) -> bool {
    forall|k: int|
        #![trigger events[k]]
        0 <= k < events.len() ==> {
            let now = open_after_all(open, events.take(k));
            0 <= events[k].from < now.len() && now[events[k].from]
        }
}

/// What the output does on each of the events.
pub open spec fn outputs<T>(open: Seq<bool>, events: Seq<MuxEvent<T>>) -> Seq<Output<T>> {
    Seq::new(
        events.len(),
        |k: int| output(open_after_all(open, events.take(k)), events[k]),
    )
}

/// Whether the input closes in the course of the events.
pub open spec fn closes<T>(events: Seq<MuxEvent<T>>, input: int) -> bool {
    exists|k: int|
        0 <= k < events.len() && (#[trigger] events[k]).from == input && events[k].what is Closed
}

/// The output gives every item of every input, and no other, in the order in which
/// they come.
pub proof fn law_muxer_gives_every_item<T>(open: Seq<bool>, events: Seq<MuxEvent<T>>)
    ensures
        outputs(open, events).len() == events.len(),
        forall|k: int|
            0 <= k < events.len() ==> match events[k].what {
                Input::Item(item) => #[trigger] outputs(open, events)[k] == Output::Item(item),
                Input::Closed => !(outputs(open, events)[k] is Item),
            },
{
}

/// An input is open until it closes.
proof fn lemma_open_until_closed<T>(open: Seq<bool>, events: Seq<MuxEvent<T>>)
    requires
        possible(open, events),
    ensures
        open_after_all(open, events).len() == open.len(),
        forall|i: int|
            0 <= i < open.len() ==> (#[trigger] open_after_all(open, events)[i] <==> open[i]
                && !closes(events, i)),
    decreases events.len(),
{
    if events.len() > 0 {
        let init = events.drop_last();
        let last = events.last();
        lemma_possible_prefix(open, events, events.len() - 1);
        assert(events.take(events.len() - 1) =~= init);
        lemma_open_until_closed(open, init);
        assert(last == events[events.len() - 1]);
        assert forall|i: int| 0 <= i < open.len() implies (#[trigger] open_after_all(open, events)[i]
            <==> open[i] && !closes(events, i)) by {
            if closes(init, i) {
                let k = choose|k: int|
                    0 <= k < init.len() && (#[trigger] init[k]).from == i && init[k].what is Closed;
                assert(events[k] == init[k]);
                assert(closes(events, i));
            }
            if closes(events, i) && !closes(init, i) {
                let k = choose|k: int|
                    0 <= k < events.len() && (#[trigger] events[k]).from == i
                        && events[k].what is Closed;
                if k < init.len() {
                    assert(init[k] == events[k]);
                }
                assert(k == events.len() - 1);
            }
            if last.from == i && last.what is Closed {
                assert(closes(events, i));
            }
        }
    }
}

/// The output is closed exactly when all inputs have closed, and it closes at the
/// event that closes the last of them.
pub proof fn law_muxer_closes_with_the_last_input<T>(inputs: nat, events: Seq<MuxEvent<T>>)
    requires
        possible(all_open(inputs), events),
    ensures
        all_closed(open_after_all(all_open(inputs), events)) <==> (forall|i: int|
            0 <= i < inputs ==> #[trigger] closes(events, i)),
        forall|k: int|
            0 <= k < events.len() ==> (#[trigger] outputs(all_open(inputs), events)[k] is Close <==> (forall|i: int|
                0 <= i < inputs ==> #[trigger] closes(events.take(k + 1), i))),
{
    let open = all_open(inputs);
    lemma_all_closed(inputs, events);
    assert forall|k: int| 0 <= k < events.len() implies (#[trigger] outputs(open, events)[k] is Close
        <==> (forall|i: int| 0 <= i < inputs ==> #[trigger] closes(events.take(k + 1), i))) by {
        let upto = events.take(k + 1);
        let now = open_after_all(open, events.take(k));
        lemma_possible_prefix(open, events, k + 1);
        lemma_all_closed(inputs, upto);
        assert(upto.drop_last() =~= events.take(k));
        assert(upto.last() == events[k]);
        lemma_possible_prefix(open, events, k);
        lemma_open_until_closed(open, events.take(k));
        if events[k].what is Item {
            assert(now[events[k].from]);
            assert(!all_closed(now));
        }
    }
}

proof fn lemma_all_closed<T>(inputs: nat, events: Seq<MuxEvent<T>>)
    requires
        possible(all_open(inputs), events),
    ensures
        all_closed(open_after_all(all_open(inputs), events)) <==> (forall|i: int|
            0 <= i < inputs ==> #[trigger] closes(events, i)),
{
    let open = all_open(inputs);
    let now = open_after_all(open, events);
    lemma_open_until_closed(open, events);
    if all_closed(now) {
        assert forall|i: int| 0 <= i < inputs implies #[trigger] closes(events, i) by {
            assert(!now[i]);
        }
    }
    if forall|i: int| 0 <= i < inputs ==> #[trigger] closes(events, i) {
        assert forall|i: int| 0 <= i < now.len() implies !#[trigger] now[i] by {
            assert(closes(events, i));
        }
    }
}

proof fn lemma_possible_prefix<T>(open: Seq<bool>, events: Seq<MuxEvent<T>>, n: int)
    requires
        possible(open, events),
        0 <= n <= events.len(),
    ensures
        possible(open, events.take(n)),
{
    let init = events.take(n);
    assert forall|k: int| #![trigger init[k]] 0 <= k < init.len() implies {
        let now = open_after_all(open, init.take(k));
        0 <= init[k].from < now.len() && now[init[k].from]
    } by {
        assert(init.take(k) =~= events.take(k));
        assert(init[k] == events[k]);
    }
}

/// Whatever inputs are open: an item leaves them all as they are and comes out, and an input
/// that closes leaves the others as they are and closes the output exactly where no other
/// input is open.
pub proof fn law_muxer_step<T>(open: Seq<bool>, event: MuxEvent<T>)
    requires
        0 <= event.from < open.len(),
        open[event.from],
    ensures
        open_after(open, event).len() == open.len(),
        forall|i: int|
            0 <= i < open.len() ==> (#[trigger] open_after(open, event)[i] <==> open[i] && !(i
                == event.from && event.what is Closed)),
        match event.what {
            Input::Item(item) => output(open, event) == Output::Item(item),
            Input::Closed => {
                let others = exists|i: int|
                    0 <= i < open.len() && i != event.from && #[trigger] open[i];
                output(open, event) == (if others {
                    Output::<T>::Nothing
                } else {
                    Output::<T>::Close
                })
            },
        },
{
    if event.what is Closed {
        let now = open_after(open, event);
        if exists|i: int| 0 <= i < open.len() && i != event.from && #[trigger] open[i] {
            let i = choose|i: int| 0 <= i < open.len() && i != event.from && #[trigger] open[i];
            assert(now[i]);
        } else {
            assert forall|i: int| 0 <= i < now.len() implies !#[trigger] now[i] by {
                if i != event.from {
                    assert(!open[i]);
                }
            }
        }
    }
}

/// All inputs are open at first, and the output is closed where no input is open.
pub proof fn law_muxer_starts_open(inputs: nat, open: Seq<bool>)
    ensures
        all_open(inputs).len() == inputs,
        forall|i: int| 0 <= i < inputs ==> #[trigger] all_open(inputs)[i],
        all_closed(open) <==> !(exists|i: int| 0 <= i < open.len() && #[trigger] open[i]),
{
}

} // verus!

use vstd::prelude::*;
use crate::error::Chip8Error;

verus! {

/// Number of return addresses the call stack can hold.
pub const STACK_DEPTH: usize = 16;

/// What a push does to the live entries: the value is appended unless the
/// stack is full.
pub open spec fn push_spec(entries: Seq<u16>, value: u16) -> Result<Seq<u16>, Chip8Error> {
    if entries.len() < STACK_DEPTH {
        Ok(entries.push(value))
    } else {
        Err(Chip8Error::StackOverflow)
    }
}

/// What a pop does to the live entries: the newest one is handed out and
/// removed, unless there is none.
pub open spec fn pop_spec(entries: Seq<u16>) -> Result<(u16, Seq<u16>), Chip8Error> {
    if entries.len() > 0 {
        Ok((entries.last(), entries.drop_last()))
    } else {
        Err(Chip8Error::StackUnderflow)
    }
}

/// The entries after each of `values` has been pushed in turn, first to
/// last; the first push that fails ends the run.
pub open spec fn push_each(entries: Seq<u16>, values: Seq<u16>) -> Result<Seq<u16>, Chip8Error>
    decreases values.len(),
{
    if values.len() == 0 {
        Ok(entries)
    } else {
        match push_spec(entries, values.first()) {
            Ok(next) => push_each(next, values.drop_first()),
            Err(e) => Err(e),
        }
    }
}

/// The outcome of `count` pops in a row: the values in the order they came
/// out, and the entries that are left. The first pop that fails ends the run.
pub open spec fn pop_each(entries: Seq<u16>, count: nat) -> Result<
    (Seq<u16>, Seq<u16>),
    Chip8Error,
>
    decreases count,
{
    if count == 0 {
        Ok((Seq::empty(), entries))
    } else {
        match pop_spec(entries) {
            Ok((value, rest)) => match pop_each(rest, (count - 1) as nat) {
                Ok((values, left)) => Ok((seq![value] + values, left)),
                Err(e) => Err(e),
            },
            Err(e) => Err(e),
        }
    }
}

/// A run of pushes appends all its values if they fit, and overflows if
/// they do not.
pub proof fn lemma_push_each(entries: Seq<u16>, values: Seq<u16>)
    requires
        entries.len() <= STACK_DEPTH,
    ensures
        entries.len() + values.len() <= STACK_DEPTH ==> push_each(entries, values) == Ok::<
            Seq<u16>,
            Chip8Error,
        >(entries + values),
        entries.len() + values.len() > STACK_DEPTH ==> push_each(entries, values) == Err::<
            Seq<u16>,
            Chip8Error,
        >(Chip8Error::StackOverflow),
    decreases values.len(),
{
    if values.len() == 0 {
        assert(entries + values =~= entries);
    } else if entries.len() < STACK_DEPTH {
        lemma_push_each(entries.push(values.first()), values.drop_first());
        assert(entries.push(values.first()) + values.drop_first() =~= entries + values);
    }
}

/// A run of pops hands out the newest entries, newest first, and underflows
/// if it asks for more than there are.
pub proof fn lemma_pop_each(entries: Seq<u16>, count: nat)
    ensures
        count <= entries.len() ==> pop_each(entries, count) == Ok::<
            (Seq<u16>, Seq<u16>),
            Chip8Error,
        >(
            (
                entries.subrange(entries.len() - count, entries.len() as int).reverse(),
                entries.take(entries.len() - count),
            ),
        ),
        count > entries.len() ==> pop_each(entries, count) == Err::<
            (Seq<u16>, Seq<u16>),
            Chip8Error,
        >(Chip8Error::StackUnderflow),
    decreases count,
{
    let len = entries.len() as int;
    if count == 0 {
        assert(entries.subrange(len, len).reverse() =~= Seq::<u16>::empty());
        assert(entries.take(len) =~= entries);
    } else if entries.len() > 0 {
        let rest = entries.drop_last();
        lemma_pop_each(rest, (count - 1) as nat);
        if count <= entries.len() {
            assert(rest.take(rest.len() - (count - 1)) =~= entries.take(len - count));
            assert(seq![entries.last()] + rest.subrange(
                rest.len() - (count - 1),
                rest.len() as int,
            ).reverse() =~= entries.subrange(len - count, len).reverse());
        }
    }
}

/// Last in, first out: after a run of pushes that fit, as many pops hand the
/// values back in reverse order and leave the stack as it was before.
pub proof fn lemma_push_pop_round_trip(entries: Seq<u16>, values: Seq<u16>)
    requires
        entries.len() + values.len() <= STACK_DEPTH,
    ensures
        push_each(entries, values) is Ok,
        pop_each(push_each(entries, values)->Ok_0, values.len()) == Ok::<
            (Seq<u16>, Seq<u16>),
            Chip8Error,
        >((values.reverse(), entries)),
{
    lemma_push_each(entries, values);
    let all = entries + values;
    lemma_pop_each(all, values.len());
    assert(all.subrange(all.len() - values.len(), all.len() as int) =~= values);
    assert(all.take(all.len() - values.len()) =~= entries);
}

/// A stack whose slots all hold zero.
pub open spec fn blank_slots() -> Seq<u16> {
    Seq::new(STACK_DEPTH as nat, |i: int| 0u16)
}

/// The call stack: sixteen slots for return addresses. How many of them are
/// live is the machine's stack pointer, which is kept in the register file
/// and handed to `push` and `pop`.
pub struct Stack {
    slots: [u16; STACK_DEPTH],
}

impl View for Stack {
    type V = Seq<u16>;

    /// All sixteen slots, live or not, lowest first.
    closed spec fn view(&self) -> Seq<u16> {
        self.slots@
    }
}

impl Stack {
    /// The live entries when the stack pointer is `sp`, oldest first.
    pub closed spec fn entries(&self, sp: u8) -> Seq<u16> {
        self@.take(sp as int)
    }

    /// The live entries are the lowest `sp` slots.
    pub proof fn lemma_entries_are_lowest_slots(&self, sp: u8)
        ensures
            self.entries(sp) == self@.take(sp as int),
    {
    }

    /// Every stack has exactly `STACK_DEPTH` slots.
    pub proof fn lemma_len(&self)
        ensures
            self@.len() == STACK_DEPTH,
    {
    }

    /// With a stack pointer in range there are exactly `sp` live entries.
    pub proof fn lemma_entries_len(&self, sp: u8)
        requires
            sp <= STACK_DEPTH,
        ensures
            self.entries(sp).len() == sp,
    {
    }

    /// An empty stack: every slot holds zero, and with the stack pointer at
    /// zero none of them is live.
    pub fn new() -> (s: Stack)
        ensures
            s@ == blank_slots(),
            s.entries(0) == Seq::<u16>::empty(),
    {
        let s = Stack { slots: [0u16; STACK_DEPTH] };
        assert(s@ =~= blank_slots());
        s
    }

    /// Removes and returns the most recently pushed address. On an empty
    /// stack `StackUnderflow` is returned and the stack pointer stays. No
    /// slot changes either way: the popped entry is merely no longer live.
    pub fn pop(&mut self, sp: &mut u8) -> (r: Result<u16, Chip8Error>)
        requires
            *old(sp) <= STACK_DEPTH,
        ensures
            final(self)@ == old(self)@,
            match pop_spec(old(self).entries(*old(sp))) {
                Ok((value, rest)) => {
                    &&& r == Ok::<u16, Chip8Error>(value)
                    &&& *final(sp) == *old(sp) - 1
                    &&& final(self).entries(*final(sp)) == rest
                },
                Err(e) => {
                    &&& r == Err::<u16, Chip8Error>(e)
                    &&& *final(sp) == *old(sp)
                    &&& final(self).entries(*final(sp)) == old(self).entries(*old(sp))
                },
            },
    {
        if *sp == 0 {
            Err(Chip8Error::StackUnderflow)
        } else {
            *sp = *sp - 1;
            Ok(self.slots[*sp as usize])
        }
    }

    /// Appends `payload` as the newest entry: it goes into the slot the
    /// stack pointer names, and no other slot changes. On a full stack
    /// nothing changes and `StackOverflow` is returned.
    pub fn push(&mut self, payload: u16, sp: &mut u8) -> (r: Result<(), Chip8Error>)
        requires
            *old(sp) <= STACK_DEPTH,
        ensures
            match push_spec(old(self).entries(*old(sp)), payload) {
                Ok(next) => {
                    &&& r == Ok::<(), Chip8Error>(())
                    &&& *final(sp) == *old(sp) + 1
                    &&& final(self).entries(*final(sp)) == next
                    &&& final(self)@ == old(self)@.update(*old(sp) as int, payload)
                },
                Err(e) => {
                    &&& r == Err::<(), Chip8Error>(e)
                    &&& *final(sp) == *old(sp)
                    &&& final(self).entries(*final(sp)) == old(self).entries(*old(sp))
                    &&& final(self)@ == old(self)@
                },
            },
    {
        if *sp as usize >= STACK_DEPTH {
            Err(Chip8Error::StackOverflow)
        } else {
            self.slots[*sp as usize] = payload;
            *sp = *sp + 1;
            Ok(())
        }
    }
}

} // verus!

//! A bounded last-in-first-out store of 16-bit values.
//!
//! The model of a [`Stack`] is the sequence of the values it holds, oldest
//! first.  [`pushed`] and [`popped`] say what one operation does to such a
//! sequence; `Stack::push` and `Stack::pop` are verified against them.

use vstd::prelude::*;

verus! {

/// The number of values a stack can hold.
pub const CAPACITY: usize = 64;

/// Why a stack operation was refused.
#[derive(Clone, Copy, Debug, PartialEq, Eq)]
pub enum StackError {
    /// A push found the stack full.
    StackOverflow,
    /// A pop found the stack empty.
    StackUnderflow,
}

/// The contents after pushing `value` onto `contents`, or the overflow that
/// a full stack answers with.
pub open spec fn pushed(contents: Seq<u16>, value: u16) -> Result<Seq<u16>, StackError> {
    if contents.len() < CAPACITY {
        Ok(contents.push(value))
    } else {
        Err(StackError::StackOverflow)
    }
}

/// The value that a pop takes off `contents` and what stays behind, or the
/// underflow that an empty stack answers with.
pub open spec fn popped(contents: Seq<u16>) -> Result<(u16, Seq<u16>), StackError> {
    if contents.len() > 0 {
        Ok((contents.last(), contents.drop_last()))
    } else {
        Err(StackError::StackUnderflow)
    }
}

/// The contents after pushing `values` one by one, first to last, stopping
/// at the first push that is refused.
pub open spec fn pushed_all(contents: Seq<u16>, values: Seq<u16>) -> Result<
    Seq<u16>,
    StackError,
>
    decreases values.len(),
{
    if values.len() == 0 {
        Ok(contents)
    } else {
        match pushed(contents, values.first()) {
            Ok(next) => pushed_all(next, values.drop_first()),
            Err(error) => Err(error),
        }
    }
}

/// The values that `n` pops take off `contents`, in the order in which they
/// come out, and what stays behind; the underflow if one of the pops is
/// refused.
pub open spec fn popped_n(contents: Seq<u16>, n: nat) -> Result<(Seq<u16>, Seq<u16>), StackError>
    decreases n,
{
    if n == 0 {
        Ok((Seq::empty(), contents))
    } else {
        match popped(contents) {
            Ok((value, next)) => match popped_n(next, (n - 1) as nat) {
                Ok((values, rest)) => Ok((seq![value] + values, rest)),
                Err(error) => Err(error),
            },
            Err(error) => Err(error),
        }
    }
}

/// A fixed-capacity stack: `CAPACITY` slots and a cursor, `top`, that marks
/// the next free slot.  The cursor never leaves `0..=CAPACITY`.
///
/// In specifications a stack is built with `blank`, `after_push` and
/// `after_pop` and observed through `slots`, `cursor` and its view.
pub struct Stack {
    data: [u16; CAPACITY],
    top: usize,
}

impl View for Stack {
    type V = Seq<u16>;

    /// The values on the stack, oldest first: the slots below the cursor.
    open spec fn view(&self) -> Seq<u16> {
        self.slots().take(self.cursor() as int)
    }
}

impl Stack {
    /// The backing storage, slot by slot, the slots above the cursor
    /// included.
    pub closed spec fn slots(&self) -> Seq<u16> {
        self.data@
    }

    /// The index of the next free slot.
    pub closed spec fn cursor(&self) -> nat {
        self.top as nat
    }

    /// The empty stack over zero-filled storage.
    pub closed spec fn blank() -> Stack {
        Stack { data: [0u16; CAPACITY], top: 0 }
    }

    /// The stack as a push of `value` leaves it: a full stack stays as it is.
    pub closed spec fn after_push(self, value: u16) -> Stack {
        if self.top < CAPACITY {
            Stack {
                data: vstd::array::spec_array_update(self.data, self.top as int, value),
                top: (self.top + 1) as usize,
            }
        } else {
            self
        }
    }

    /// The stack as a pop leaves it: an empty stack stays as it is.
    pub closed spec fn after_pop(self) -> Stack {
        if self.top > 0 {
            Stack { data: self.data, top: (self.top - 1) as usize }
        } else {
            self
        }
    }

    #[verifier::type_invariant]
    closed spec fn cursor_in_bounds(&self) -> bool {
        self.top <= CAPACITY
    }

    /// An empty stack over zero-filled storage.
    pub fn new() -> (stack: Self)
        ensures
            stack == Stack::blank(),
            stack.cursor() == 0,
            stack.slots() == Seq::new(CAPACITY as nat, |i: int| 0u16),
            stack@ == Seq::<u16>::empty(),
    {
        let stack = Stack { data: [0; CAPACITY], top: 0 };
        proof {
            assert(stack.data =~= Stack::blank().data);
            lemma_blank();
        }
        stack
    }

    /// Stores `value` in the slot under the cursor and moves the cursor up.
    /// A full stack refuses with `StackOverflow` and stays as it was.
    pub fn push(&mut self, value: u16) -> (result: Result<(), StackError>)
        ensures
            *final(self) == old(self).after_push(value),
            match pushed(old(self)@, value) {
                Ok(contents) => {
                    &&& result is Ok
                    &&& final(self)@ == contents
                    &&& final(self).cursor() == old(self).cursor() + 1
                    &&& final(self).slots() == old(self).slots().update(
                        old(self).cursor() as int,
                        value,
                    )
                },
                Err(error) => result == Err::<(), StackError>(error) && *final(self) == *old(self),
            },
            final(self).cursor() <= CAPACITY,
    {
        proof {
            use_type_invariant(&*self);
        }
        if self.top >= CAPACITY {
            return Err(StackError::StackOverflow);
        }
        self.data[self.top] = value;
        self.top += 1;
        assert(self.data =~= old(self).after_push(value).data);
        Ok(())
    }

    /// Moves the cursor down and returns the value in the slot it then marks.
    /// An empty stack refuses with `StackUnderflow` and stays as it was.
    pub fn pop(&mut self) -> (result: Result<u16, StackError>)
        ensures
            *final(self) == old(self).after_pop(),
            match popped(old(self)@) {
                Ok((value, contents)) => {
                    &&& result == Ok::<u16, StackError>(value)
                    &&& final(self)@ == contents
                    &&& final(self).cursor() == old(self).cursor() - 1
                    &&& final(self).slots() == old(self).slots()
                },
                Err(error) => result == Err::<u16, StackError>(error) && *final(self) == *old(self),
            },
            final(self).cursor() <= CAPACITY,
    {
        proof {
            use_type_invariant(&*self);
        }
        if self.top == 0 {
            return Err(StackError::StackUnderflow);
        }
        self.top -= 1;
        let value = self.data[self.top];
        Ok(value)
    }

    /// The cursor: how many values the stack holds.
    pub fn top(&self) -> (top: usize)
        ensures
            top == self.cursor(),
            top == self@.len(),
            top <= CAPACITY,
    {
        proof {
            use_type_invariant(self);
        }
        self.top
    }

    /// The number of slots, which is `CAPACITY` for every stack.
    pub fn size(&self) -> (size: usize)
        ensures
            size == CAPACITY,
            size == self.slots().len(),
    {
        CAPACITY
    }

    /// The backing storage.  The slots at and above the cursor keep what was
    /// last stored in them.
    pub fn data(&self) -> (data: &[u16; CAPACITY])
        ensures
            data@ == self.slots(),
    {
        &self.data
    }
}

/// Slots and cursor are all there is to a stack: two stacks that agree on
/// both are equal.
pub proof fn lemma_equal_by_parts(left: Stack, right: Stack)
    requires
        left.slots() == right.slots(),
        left.cursor() == right.cursor(),
    ensures
        left == right,
{
    assert(left.data =~= right.data);
}

/// A blank stack is empty, and each of its `CAPACITY` slots holds zero.
pub proof fn lemma_blank()
    ensures
        Stack::blank().cursor() == 0,
        Stack::blank().slots() == Seq::new(CAPACITY as nat, |i: int| 0u16),
        Stack::blank()@ == Seq::<u16>::empty(),
{
    assert(Stack::blank().slots() =~= Seq::new(CAPACITY as nat, |i: int| 0u16));
}

/// What a push makes of a stack.  Below capacity it writes the slot under
/// the cursor and moves the cursor up, which appends `value` to the
/// contents; at capacity it changes nothing.
pub proof fn lemma_after_push(stack: Stack, value: u16)
    ensures
        stack.slots().len() == CAPACITY,
        stack.cursor() < CAPACITY ==> {
            &&& stack.after_push(value).cursor() == stack.cursor() + 1
            &&& stack.after_push(value).slots() == stack.slots().update(
                stack.cursor() as int,
                value,
            )
            &&& stack.after_push(value)@ == stack@.push(value)
        },
        stack.cursor() >= CAPACITY ==> stack.after_push(value) == stack,
        stack.cursor() <= CAPACITY ==> stack.after_push(value).cursor() <= CAPACITY,
{
    if stack.cursor() < CAPACITY {
        assert(stack.after_push(value)@ =~= stack@.push(value));
    }
}

/// What a pop makes of a stack.  Above the bottom it moves the cursor down
/// and leaves every slot as it is, which drops the newest value from the
/// contents; at the bottom it changes nothing.
pub proof fn lemma_after_pop(stack: Stack)
    ensures
        stack.slots().len() == CAPACITY,
        stack.after_pop().slots() == stack.slots(),
        stack.cursor() > 0 ==> stack.after_pop().cursor() == stack.cursor() - 1,
        0 < stack.cursor() <= CAPACITY ==> stack.after_pop()@ == stack@.drop_last(),
        stack.cursor() == 0 ==> stack.after_pop() == stack,
        stack.cursor() <= CAPACITY ==> stack.after_pop().cursor() <= CAPACITY,
{
    if 0 < stack.cursor() <= CAPACITY {
        assert(stack.after_pop()@ =~= stack@.drop_last());
    }
}

/// Pushing `values` succeeds exactly when all of them fit; the stack then
/// holds its former contents followed by `values`.
pub proof fn lemma_pushed_all(contents: Seq<u16>, values: Seq<u16>)
    ensures
        pushed_all(contents, values) == if values.len() == 0 || contents.len() + values.len()
            <= CAPACITY {
            Ok::<Seq<u16>, StackError>(contents + values)
        } else {
            Err::<Seq<u16>, StackError>(StackError::StackOverflow)
        },
    decreases values.len(),
{
    if values.len() > 0 && contents.len() < CAPACITY {
        let next = contents.push(values.first());
        lemma_pushed_all(next, values.drop_first());
        assert(next + values.drop_first() =~= contents + values);
    }
}

/// `n` pops succeed exactly when the stack holds at least `n` values; they
/// return its last `n` values, newest first, and leave the others.
pub proof fn lemma_popped_n(contents: Seq<u16>, n: nat)
    ensures
        popped_n(contents, n) == if n <= contents.len() {
            Ok::<(Seq<u16>, Seq<u16>), StackError>(
                (
                    contents.skip(contents.len() - n).reverse(),
                    contents.take(contents.len() - n),
                ),
            )
        } else {
            Err::<(Seq<u16>, Seq<u16>), StackError>(StackError::StackUnderflow)
        },
    decreases n,
{
    let rest = contents.len() - n;
    if n == 0 {
        assert(contents.take(rest) =~= contents);
    } else if contents.len() > 0 {
        let next = contents.drop_last();
        lemma_popped_n(next, (n - 1) as nat);
        if n <= contents.len() {
            assert(next.take(rest) =~= contents.take(rest));
            assert(seq![contents.last()] + next.skip(rest).reverse() =~= contents.skip(
                rest,
            ).reverse());
        }
    }
}

/// A stack takes `CAPACITY` values and no more: pushing that many onto an
/// empty stack succeeds, and the push after them overflows.
pub proof fn lemma_capacity(values: Seq<u16>, extra: u16)
    requires
        values.len() == CAPACITY,
    ensures
        pushed_all(Seq::empty(), values) == Ok::<Seq<u16>, StackError>(values),
        pushed(values, extra) == Err::<Seq<u16>, StackError>(StackError::StackOverflow),
{
    lemma_pushed_all(Seq::empty(), values);
}

/// Last in, first out: values pushed onto an empty stack come back in
/// reverse order when popped as many times, and the stack is empty again.
pub proof fn lemma_lifo(values: Seq<u16>)
    requires
        values.len() <= CAPACITY,
    ensures
        pushed_all(Seq::empty(), values) == Ok::<Seq<u16>, StackError>(values),
        popped_n(values, values.len()) == Ok::<(Seq<u16>, Seq<u16>), StackError>(
            (values.reverse(), Seq::empty()),
        ),
{
    lemma_pushed_all(Seq::empty(), values);
    lemma_popped_n(values, values.len());
    assert(values.skip(0) =~= values);
    assert(values.take(0) =~= Seq::<u16>::empty());
}

} // verus!

use crate::buffer::AllocFlag;
use vstd::prelude::*;
use vstd::std_specs::convert::FromSpecImpl;

verus! {

/// The device without memory of its own: its buffers store their elements
/// inline, in arrays whose length is known when the program is compiled.
#[derive(Debug, Clone, Copy, PartialEq, Eq)]
pub struct Stack;

/// The dimensions of a buffer whose size is fixed.
#[derive(Debug, Clone, Copy, PartialEq, Eq, Structural)]
pub enum Shape {
    /// A row of so many elements.
    Dim1(usize),
    /// So many rows of so many columns.
    Dim2(usize, usize),
}

impl Shape {
    /// Number of elements of a buffer with these dimensions.
    pub open spec fn size(&self) -> int {
        match *self {
            Shape::Dim1(n) => n as int,
            Shape::Dim2(rows, cols) => rows * cols,
        }
    }

    /// Number of elements of a buffer with these dimensions, where it fits
    /// `usize`.
    pub fn len(&self) -> (n: Option<usize>)
        ensures
            n == (if self.size() <= usize::MAX {
                Some(self.size() as usize)
            } else {
                None
            }),
    {
        match *self {
            Shape::Dim1(n) => Some(n),
            Shape::Dim2(rows, cols) => rows.checked_mul(cols),
        }
    }
}

/// `N` elements stored inline.
#[derive(Debug, PartialEq, Eq)]
pub struct StackArray<T, const N: usize> {
    pub array: [T; N],
}

impl<T, const N: usize> View for StackArray<T, N> {
    type V = Seq<T>;

    open spec fn view(&self) -> Seq<T> {
        self.array@
    }
}

impl<T, const N: usize> StackArray<T, N> {
    /// The array as it is.
    pub fn from_array(array: [T; N]) -> (a: Self)
        ensures
            a.array == array,
    {
        StackArray { array }
    }

    /// Number of elements.
    pub fn len(&self) -> (n: usize)
        ensures
            n == N,
    {
        N
    }

    /// The elements, in order.
    pub fn as_slice(&self) -> (s: &[T])
        ensures
            s@ == self@,
    {
        self.array.as_slice()
    }
}

impl<T: Copy + Default, const N: usize> StackArray<T, N> {
    /// An array in which every element is a default value.
    pub fn new() -> (a: Self)
        ensures
            forall|i: int| 0 <= i < N ==> crate::memory::is_default(#[trigger] a@[i]),
    {
        let fill = T::default();
        let array: [T; N] = [fill;N];
        StackArray { array }
    }

    /// Replaces the elements by those of `data`, which must be `N`;
    /// otherwise nothing is changed and the result is `false`.
    pub fn copy_from_slice(&mut self, data: &[T]) -> (copied: bool)
        ensures
            copied == (data@.len() == N),
            copied ==> final(self)@ == data@,
            !copied ==> *final(self) == *old(self),
    {
        if data.len() != N {
            return false;
        }
        let mut i: usize = 0;
        while i < N
            invariant
                i <= N,
                data@.len() == N,
                forall|j: int| 0 <= j < i ==> self.array@[j] == data@[j],
            decreases N - i,
        {
            self.array[i] = data[i];
            i = i + 1;
        }
        true
    }

    /// The element at position `i`, where there is one.
    pub fn get(&self, i: usize) -> (r: Option<T>)
        ensures
            r == (if i < N {
                Some(self@[i as int])
            } else {
                None
            }),
    {
        if i < N {
            Some(self.array[i])
        } else {
            None
        }
    }

    /// Puts `value` at position `i`; `false` where there is no such
    /// position.
    pub fn set(&mut self, i: usize, value: T) -> (done: bool)
        ensures
            done == (i < N),
            done ==> final(self)@ == old(self)@.update(i as int, value),
            !done ==> *final(self) == *old(self),
    {
        if i < N {
            self.array[i] = value;
            true
        } else {
            false
        }
    }
}

/// A buffer of `N` elements that are stored inline.  It owns them: nothing
/// is allocated for it and nothing is to be released.
#[derive(Debug, PartialEq, Eq)]
pub struct StackBuffer<T, const N: usize> {
    pub ptr: StackArray<T, N>,
    /// The dimensions; they make up `N` elements.
    pub shape: Shape,
}

impl<T, const N: usize> View for StackBuffer<T, N> {
    type V = Seq<T>;

    open spec fn view(&self) -> Seq<T> {
        self.ptr@
    }
}

impl<T, const N: usize> StackBuffer<T, N> {
    /// The dimensions make up the elements that the buffer has.
    pub open spec fn wf(&self) -> bool {
        self.shape.size() == N
    }

    /// Number of elements.
    pub fn len(&self) -> (n: usize)
        ensures
            n == N,
    {
        N
    }

    /// Who answers for the memory: the buffer itself.
    pub fn flag(&self) -> (f: AllocFlag)
        ensures
            f == AllocFlag::Stack,
    {
        AllocFlag::Stack
    }

    /// The elements, in order.
    pub fn as_slice(&self) -> (s: &[T])
        ensures
            s@ == self@,
    {
        self.ptr.as_slice()
    }

    /// A buffer of `rows` rows and `cols` columns that holds the elements
    /// of `array`.  The dimensions must make up the `N` elements.
    pub fn from_array_2d(stack: &Stack, array: [T; N], rows: usize, cols: usize) -> (buf: Self)
        requires
            rows * cols == N,
        ensures
            buf.ptr.array == array,
            buf.shape == Shape::Dim2(rows, cols),
            buf.wf(),
    {
        StackBuffer { ptr: StackArray::from_array(array), shape: Shape::Dim2(rows, cols) }
    }
}

impl<T: Copy + Default, const N: usize> StackBuffer<T, N> {
    /// A buffer of `rows` rows and `cols` columns that holds a copy of the
    /// elements of `array`.  The dimensions must make up the `N` elements.
    pub fn from_slice_2d(stack: &Stack, array: &[T; N], rows: usize, cols: usize) -> (buf: Self)
        requires
            rows * cols == N,
        ensures
            buf@ == array@,
            buf.shape == Shape::Dim2(rows, cols),
            buf.wf(),
    {
        let mut arr: StackArray<T, N> = StackArray::new();
        let _ = arr.copy_from_slice(array.as_slice());
        StackBuffer { ptr: arr, shape: Shape::Dim2(rows, cols) }
    }
}

impl Stack {
    /// The device.
    pub fn new() -> Stack {
        Stack
    }

    /// A buffer of `N` default values.
    pub fn retrieve<T: Copy + Default, const N: usize>(&self) -> (b: StackBuffer<T, N>)
        ensures
            b.wf(),
            b.shape == Shape::Dim1(N),
            forall|i: int| 0 <= i < N ==> crate::memory::is_default(#[trigger] b@[i]),
    {
        StackBuffer { ptr: StackArray::new(), shape: Shape::Dim1(N) }
    }
}

impl<T, const N: usize> From<(Stack, [T; N])> for StackBuffer<T, N> {
    fn from(v: (Stack, [T; N])) -> (b: Self) {
        StackBuffer { ptr: StackArray::from_array(v.1), shape: Shape::Dim1(N) }
    }
}

impl<T, const N: usize> FromSpecImpl<(Stack, [T; N])> for StackBuffer<T, N> {
    open spec fn obeys_from_spec() -> bool {
        true
    }

    open spec fn from_spec(v: (Stack, [T; N])) -> Self {
        StackBuffer { ptr: StackArray { array: v.1 }, shape: Shape::Dim1(N) }
    }
}

impl<'a, T, const N: usize> From<(&'a Stack, [T; N])> for StackBuffer<T, N> {
    fn from(v: (&'a Stack, [T; N])) -> (b: Self) {
        StackBuffer { ptr: StackArray::from_array(v.1), shape: Shape::Dim1(N) }
    }
}

impl<'a, T, const N: usize> FromSpecImpl<(&'a Stack, [T; N])> for StackBuffer<T, N> {
    open spec fn obeys_from_spec() -> bool {
        true
    }

    open spec fn from_spec(v: (&'a Stack, [T; N])) -> Self {
        StackBuffer { ptr: StackArray { array: v.1 }, shape: Shape::Dim1(N) }
    }
}

impl<'a, T: Copy, const N: usize> From<(Stack, &'a [T; N])> for StackBuffer<T, N> {
    fn from(v: (Stack, &'a [T; N])) -> (b: Self) {
        StackBuffer { ptr: StackArray::from_array(*v.1), shape: Shape::Dim1(N) }
    }
}

impl<'a, T: Copy, const N: usize> FromSpecImpl<(Stack, &'a [T; N])> for StackBuffer<T, N> {
    open spec fn obeys_from_spec() -> bool {
        true
    }

    open spec fn from_spec(v: (Stack, &'a [T; N])) -> Self {
        StackBuffer { ptr: StackArray { array: *v.1 }, shape: Shape::Dim1(N) }
    }
}

impl<'a, T: Copy, const N: usize> From<(&'a Stack, &'a [T; N])> for StackBuffer<T, N> {
    fn from(v: (&'a Stack, &'a [T; N])) -> (b: Self) {
        StackBuffer { ptr: StackArray::from_array(*v.1), shape: Shape::Dim1(N) }
    }
}

impl<'a, T: Copy, const N: usize> FromSpecImpl<(&'a Stack, &'a [T; N])> for StackBuffer<T, N> {
    open spec fn obeys_from_spec() -> bool {
        true
    }

    open spec fn from_spec(v: (&'a Stack, &'a [T; N])) -> Self {
        StackBuffer { ptr: StackArray { array: *v.1 }, shape: Shape::Dim1(N) }
    }
}

} // verus!

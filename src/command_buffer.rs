//! An editable command line: a bounded run of ASCII bytes with a cursor,
//! edited one character at a time with teletype control codes.
use vstd::prelude::*;

verus! {

/// Bytes of storage behind every line: the largest capacity a line can have.
pub const STORAGE: usize = 128;

/// `heapless::Vec`, a vector with a fixed capacity `N` and no allocation.
#[verifier::external_type_specification]
#[verifier::external_body]
#[verifier::reject_recursive_types(T)]
pub struct ExHeaplessVec<T, const N: usize>(heapless::Vec<T, N>);

/// The bytes that a line's storage holds, in order.
pub uninterp spec fn stored(v: heapless::Vec<u8, STORAGE>) -> Seq<u8>;

/// Relies on heapless::Vec::new: a new vector is empty.
#[verifier::external_body]
fn storage_new() -> (r: heapless::Vec<u8, STORAGE>)
    ensures
        stored(r) == Seq::<u8>::empty(),
{
    heapless::Vec::new()
}

/// Relies on the length of heapless::Vec (the length of the slice it derefs
/// to): the number of bytes held, never more than its capacity.
#[verifier::external_body]
fn storage_len(v: &heapless::Vec<u8, STORAGE>) -> (r: usize)
    ensures
        r == stored(*v).len(),
        r <= STORAGE,
{
    v.len()
}

/// Relies on heapless::Vec::push: the byte is appended when fewer than the
/// capacity are held; otherwise it is handed back and the vector is unchanged.
#[verifier::external_body]
fn storage_push(v: &mut heapless::Vec<u8, STORAGE>, b: u8) -> (r: bool)
    ensures
        r == (stored(*old(v)).len() < STORAGE),
        r ==> stored(*final(v)) == stored(*old(v)).push(b),
        !r ==> stored(*final(v)) == stored(*old(v)),
{
    v.push(b).is_ok()
}

/// Relies on indexing heapless::Vec (through its slice): the byte at `i`.
#[verifier::external_body]
fn storage_get(v: &heapless::Vec<u8, STORAGE>, i: usize) -> (r: u8)
    requires
        i < stored(*v).len(),
    ensures
        r == stored(*v)[i as int],
{
    v[i]
}

/// Relies on mutable indexing of heapless::Vec (through its slice): the byte
/// at `i` is replaced.
#[verifier::external_body]
fn storage_set(v: &mut heapless::Vec<u8, STORAGE>, i: usize, b: u8)
    requires
        i < stored(*old(v)).len(),
    ensures
        stored(*final(v)) == stored(*old(v)).update(i as int, b),
{
    v[i] = b;
}

/// Relies on heapless::Vec::pop: the last byte is removed and returned.
#[verifier::external_body]
fn storage_pop(v: &mut heapless::Vec<u8, STORAGE>) -> (r: Option<u8>)
    ensures
        stored(*old(v)).len() == 0 ==> r is None && stored(*final(v)) == stored(*old(v)),
        stored(*old(v)).len() > 0 ==> r == Some(stored(*old(v)).last()) && stored(*final(v))
            == stored(*old(v)).drop_last(),
{
    v.pop()
}

/// Relies on heapless::Vec::resize: to a length no greater than the current
/// one, the vector keeps its first `new_len` bytes.
#[verifier::external_body]
fn storage_resize(v: &mut heapless::Vec<u8, STORAGE>, new_len: usize)
    requires
        new_len <= stored(*old(v)).len(),
    ensures
        stored(*final(v)) == stored(*old(v)).take(new_len as int),
{
    let _ = v.resize(new_len, 0);
}

/// Relies on heapless::Vec::as_slice: the bytes held, in order.
#[verifier::external_body]
fn storage_bytes(v: &heapless::Vec<u8, STORAGE>) -> (r: &[u8])
    ensures
        r@ == stored(*v),
{
    v.as_slice()
}

/// The characters of ASCII bytes, one for each byte.
pub open spec fn ascii_chars(b: Seq<u8>) -> Seq<char> {
    b.map_values(|x: u8| x as char)
}

/// Relies on core::str::from_utf8: bytes below 0x80 are valid UTF-8, each
/// the character of its own code.
#[verifier::external_body]
fn ascii_text(b: &[u8]) -> (r: &str)
    requires
        forall|i: int| 0 <= i < b@.len() ==> b@[i] < 0x80,
    ensures
        r@ == ascii_chars(b@),
{
    core::str::from_utf8(b).unwrap()
}


/// Start of line: the cursor goes to the first byte.
pub const START_OF_LINE: char = '\x01';
/// Cursor left by one byte.
pub const CURSOR_LEFT: char = '\x02';
/// End of line: the cursor goes past the last byte.
pub const END_OF_LINE: char = '\x05';
/// Cursor right by one byte.
pub const CURSOR_RIGHT: char = '\x06';
/// Backspace: removes the byte before the cursor.
pub const BACKSPACE: char = '\x08';
/// Kill to end: removes everything from the cursor on.
pub const KILL_TO_END: char = '\x0b';
/// Delete forward: removes the byte at the cursor.
pub const DELETE: char = '\x7f';

/// Mathematical view of a line: its bytes, the cursor and the capacity.
pub struct LineView {
    pub text: Seq<u8>,
    pub cursor: int,
    pub capacity: int,
}

impl LineView {
    /// An empty line of capacity `capacity`.
    pub open spec fn empty(capacity: int) -> LineView {
        LineView { text: Seq::empty(), cursor: 0, capacity }
    }

    /// `0 <= cursor <= length <= capacity <= STORAGE`, and every byte is ASCII.
    pub open spec fn wf(self) -> bool {
        &&& 0 <= self.cursor <= self.text.len() <= self.capacity <= STORAGE
        &&& forall|i: int| 0 <= i < self.text.len() ==> #[trigger] self.text[i] < 0x80
    }

    /// Cursor to the first byte.
    pub open spec fn move_start(self) -> LineView {
        LineView { cursor: 0, ..self }
    }

    /// Cursor past the last byte.
    pub open spec fn move_end(self) -> LineView {
        LineView { cursor: self.text.len() as int, ..self }
    }

    /// Cursor one byte left, stopping at the start.
    pub open spec fn move_left(self) -> LineView {
        LineView { cursor: if self.cursor > 0 { self.cursor - 1 } else { 0 }, ..self }
    }

    /// Cursor one byte right, stopping at the end.
    pub open spec fn move_right(self) -> LineView {
        LineView {
            cursor: if self.cursor < self.text.len() { self.cursor + 1 } else { self.cursor },
            ..self
        }
    }

    /// Removes the byte at the cursor, if there is one.
    pub open spec fn delete_forward(self) -> LineView {
        if self.cursor < self.text.len() {
            LineView { text: self.text.remove(self.cursor), ..self }
        } else {
            self
        }
    }

    /// Removes the byte before the cursor, if there is one.
    pub open spec fn delete_back(self) -> LineView {
        if self.cursor > 0 {
            LineView { text: self.text.remove(self.cursor - 1), cursor: self.cursor - 1, ..self }
        } else {
            self
        }
    }

    /// Drops everything from the cursor on.
    pub open spec fn kill_to_end(self) -> LineView {
        LineView { text: self.text.take(self.cursor), ..self }
    }

    /// Inserts `c` at the cursor and moves past it, where `c` takes one
    /// byte and the line is not full; otherwise nothing changes.
    pub open spec fn insert_char(self, c: char) -> LineView {
        if (c as u32) < 0x80 && self.text.len() < self.capacity {
            LineView { text: self.text.insert(self.cursor, c as u8), cursor: self.cursor + 1, ..self }
        } else {
            self
        }
    }

    /// The effect of one character: a control code edits or moves, anything
    /// else is inserted.
    pub open spec fn apply(self, c: char) -> LineView {
        if c == START_OF_LINE {
            self.move_start()
        } else if c == CURSOR_LEFT {
            self.move_left()
        } else if c == END_OF_LINE {
            self.move_end()
        } else if c == CURSOR_RIGHT {
            self.move_right()
        } else if c == BACKSPACE {
            self.delete_back()
        } else if c == KILL_TO_END {
            self.kill_to_end()
        } else if c == DELETE {
            self.delete_forward()
        } else {
            self.insert_char(c)
        }
    }

    /// The effect of the characters `s`, in order.
    pub open spec fn apply_all(self, s: Seq<char>) -> LineView
        decreases s.len(),
    {
        if s.len() == 0 {
            self
        } else {
            self.apply_all(s.drop_last()).apply(s.last())
        }
    }
}

/// A line being edited: at most `capacity` ASCII bytes and a cursor.
pub struct State {
    vec: heapless::Vec<u8, STORAGE>,
    insert: usize,
    capacity: usize,
}

impl View for State {
    type V = LineView;

    closed spec fn view(&self) -> LineView {
        LineView { text: stored(self.vec), cursor: self.insert as int, capacity: self.capacity as int }
    }
}

impl State {
    /// The state's invariant.
    pub open spec fn wf(&self) -> bool {
        self@.wf()
    }

    /// An empty line with the full capacity of the storage.
    pub fn init() -> (r: State)
        ensures
            r.wf(),
            r@ == LineView::empty(STORAGE as int),
    {
        State { vec: storage_new(), insert: 0, capacity: STORAGE }
    }

    /// An empty line that holds at most `capacity` bytes (at most
    /// [`STORAGE`]).
    pub fn with_capacity(capacity: usize) -> (r: State)
        ensures
            r.wf(),
            r@ == LineView::empty(if capacity < STORAGE { capacity as int } else { STORAGE as int }),
    {
        let capacity = if capacity < STORAGE { capacity } else { STORAGE };
        State { vec: storage_new(), insert: 0, capacity }
    }

    /// Inserts `c` at the cursor when it takes a single byte and the line
    /// has room; otherwise does nothing.
    pub fn insert(&mut self, c: char)
        requires
            old(self).wf(),
        ensures
            final(self).wf(),
            final(self)@ == old(self)@.insert_char(c),
    {
        if (c as u32) >= 0x80 {
            return;
        }
        let b: u8 = c as u8;
        let n: usize = storage_len(&self.vec);
        if n >= self.capacity {
            return;
        }
        let ghost t = stored(self.vec);
        storage_push(&mut self.vec, 0);
        let cur: usize = self.insert;
        let mut i: usize = n;
        while i > cur
            invariant
                cur <= i <= n,
                n == t.len(),
                n < self.capacity <= STORAGE,
                self.capacity == old(self).capacity,
                cur == self.insert,
                cur <= n,
                stored(self.vec).len() == n + 1,
                forall|j: int| 0 <= j < i ==> stored(self.vec)[j] == t[j],
                forall|j: int| i < j <= n ==> stored(self.vec)[j] == t[j - 1],
            decreases i,
        {
            let prev: u8 = storage_get(&self.vec, i - 1);
            storage_set(&mut self.vec, i, prev);
            i = i - 1;
        }
        storage_set(&mut self.vec, cur, b);
        self.insert = cur + 1;
        assert(stored(self.vec) =~= t.insert(cur as int, b));
    }

    /// Cursor to the start of the line.
    pub fn mvstart(&mut self)
        requires
            old(self).wf(),
        ensures
            final(self).wf(),
            final(self)@ == old(self)@.move_start(),
    {
        self.insert = 0;
    }

    /// Cursor past the end of the line.
    pub fn mvend(&mut self)
        requires
            old(self).wf(),
        ensures
            final(self).wf(),
            final(self)@ == old(self)@.move_end(),
    {
        self.insert = storage_len(&self.vec);
    }

    /// Drops everything from the cursor on.
    pub fn deleteend(&mut self)
        requires
            old(self).wf(),
        ensures
            final(self).wf(),
            final(self)@ == old(self)@.kill_to_end(),
    {
        storage_resize(&mut self.vec, self.insert);
    }

    /// Cursor one byte left, if not at the start.
    pub fn mvleft(&mut self)
        requires
            old(self).wf(),
        ensures
            final(self).wf(),
            final(self)@ == old(self)@.move_left(),
    {
        if self.insert > 0 {
            self.insert = self.insert - 1;
        }
    }

    /// Cursor one byte right, if not at the end.
    pub fn mvright(&mut self)
        requires
            old(self).wf(),
        ensures
            final(self).wf(),
            final(self)@ == old(self)@.move_right(),
    {
        if self.insert < storage_len(&self.vec) {
            self.insert = self.insert + 1;
        }
    }

    /// Removes the byte at the cursor, if there is one.
    pub fn delete(&mut self)
        requires
            old(self).wf(),
        ensures
            final(self).wf(),
            final(self)@ == old(self)@.delete_forward(),
    {
        let n: usize = storage_len(&self.vec);
        if self.insert < n {
            let ghost t = stored(self.vec);
            let cur: usize = self.insert;
            let mut i: usize = cur;
            while i < n - 1
                invariant
                    cur <= i <= n - 1,
                    cur < n,
                    n == t.len(),
                    cur == self.insert,
                    self.capacity == old(self).capacity,
                    stored(self.vec).len() == n,
                    forall|j: int| 0 <= j < i ==> stored(self.vec)[j] == t.remove(cur as int)[j],
                    forall|j: int| i <= j < n ==> stored(self.vec)[j] == t[j],
                decreases n - i,
            {
                let next: u8 = storage_get(&self.vec, i + 1);
                storage_set(&mut self.vec, i, next);
                i = i + 1;
            }
            storage_pop(&mut self.vec);
            assert(stored(self.vec) =~= t.remove(cur as int));
        }
    }

    /// Removes the byte before the cursor, if there is one.
    pub fn backspace(&mut self)
        requires
            old(self).wf(),
        ensures
            final(self).wf(),
            final(self)@ == old(self)@.delete_back(),
    {
        if self.insert > 0 {
            self.insert = self.insert - 1;
            self.delete();
        }
    }

    /// Applies one character: a control code edits or moves, anything else
    /// is inserted at the cursor.
    pub fn process(&mut self, c: char)
        requires
            old(self).wf(),
        ensures
            final(self).wf(),
            final(self)@ == old(self)@.apply(c),
    {
        if c == START_OF_LINE {
            self.mvstart();
        } else if c == CURSOR_LEFT {
            self.mvleft();
        } else if c == END_OF_LINE {
            self.mvend();
        } else if c == CURSOR_RIGHT {
            self.mvright();
        } else if c == BACKSPACE {
            self.backspace();
        } else if c == KILL_TO_END {
            self.deleteend();
        } else if c == DELETE {
            self.delete();
        } else {
            self.insert(c);
        }
    }

    /// Applies the characters of `s` in order.
    pub fn processstr(&mut self, s: &str)
        requires
            old(self).wf(),
        ensures
            final(self).wf(),
            final(self)@ == old(self)@.apply_all(s@),
    {
        let n: usize = s.unicode_len();
        let mut i: usize = 0;
        while i < n
            invariant
                i <= n,
                n == s@.len(),
                self.wf(),
                self@ == old(self)@.apply_all(s@.take(i as int)),
            decreases n - i,
        {
            let c: char = s.get_char(i);
            proof {
                assert(s@.take(i as int + 1).drop_last() =~= s@.take(i as int));
            }
            self.process(c);
            i = i + 1;
        }
        proof {
            assert(s@.take(n as int) =~= s@);
        }
    }

    /// The text of the line, without the cursor.
    pub fn content(&self) -> (r: &str)
        requires
            self.wf(),
        ensures
            r@ == ascii_chars(self@.text),
    {
        ascii_text(storage_bytes(&self.vec))
    }

    /// The number of bytes in the line.
    pub fn len(&self) -> (r: usize)
        requires
            self.wf(),
        ensures
            r == self@.text.len(),
    {
        storage_len(&self.vec)
    }

    /// The cursor's position.
    pub fn cursor(&self) -> (r: usize)
        ensures
            r == self@.cursor,
    {
        self.insert
    }

    /// The most bytes the line can hold.
    pub fn capacity(&self) -> (r: usize)
        ensures
            r == self@.capacity,
    {
        self.capacity
    }
}

/// Every edit keeps `0 <= cursor <= length <= capacity` and the line ASCII,
/// whatever characters arrive.
pub proof fn lemma_apply_all_wf(v: LineView, s: Seq<char>)
    requires
        v.wf(),
    ensures
        v.apply_all(s).wf(),
    decreases s.len(),
{
    if s.len() > 0 {
        lemma_apply_all_wf(v, s.drop_last());
        lemma_apply_wf(v.apply_all(s.drop_last()), s.last());
    }
}

/// One character keeps the invariant.
proof fn lemma_apply_wf(v: LineView, c: char)
    requires
        v.wf(),
    ensures
        v.apply(c).wf(),
{
    let w = v.apply(c);
    if c == BACKSPACE && v.cursor > 0 {
        assert forall|i: int| 0 <= i < w.text.len() implies #[trigger] w.text[i] < 0x80 by {
            if i >= v.cursor - 1 {
                assert(w.text[i] == v.text[i + 1]);
            }
        }
    } else if c == DELETE && v.cursor < v.text.len() {
        assert forall|i: int| 0 <= i < w.text.len() implies #[trigger] w.text[i] < 0x80 by {
            if i >= v.cursor {
                assert(w.text[i] == v.text[i + 1]);
            }
        }
    } else if c == KILL_TO_END {
        assert forall|i: int| 0 <= i < w.text.len() implies #[trigger] w.text[i] < 0x80 by {
            assert(w.text[i] == v.text[i]);
        }
    } else if c != START_OF_LINE && c != CURSOR_LEFT && c != END_OF_LINE && c != CURSOR_RIGHT
        && c != BACKSPACE && c != KILL_TO_END && c != DELETE && (c as u32) < 0x80
        && v.text.len() < v.capacity {
        assert forall|i: int| 0 <= i < w.text.len() implies #[trigger] w.text[i] < 0x80 by {
            if i < v.cursor {
                assert(w.text[i] == v.text[i]);
            } else if i > v.cursor {
                assert(w.text[i] == v.text[i - 1]);
            }
        }
    }
}

} // verus!

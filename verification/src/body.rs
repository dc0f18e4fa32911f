//! Bodies in pieces: how a file is sent, and how a received body is written to a file.

use vstd::prelude::*;

verus! {

/// A body is sent in pieces of at most so many bytes.
pub const CHUNK_SIZE: usize = 65536;

/// A received body is written in pieces of so many bytes.
pub const WRITE_CHUNK_SIZE: usize = 65536;

/// The length of the next piece of `rest` bytes.
pub open spec fn piece_length(rest: nat) -> nat {
    if rest < CHUNK_SIZE {
        rest
    } else {
        CHUNK_SIZE as nat
    }
}

/// The pieces in which bytes are sent.
pub open spec fn pieces(bytes: Seq<u8>) -> Seq<Seq<u8>>
    decreases bytes.len(),
{
    if bytes.len() == 0 {
        Seq::empty()
    } else {
        let n = piece_length(bytes.len()) as int;
        seq![bytes.take(n)] + pieces(bytes.skip(n))
    }
}

/// The bytes of a file from `start` up to `end`, to be sent.
#[derive(Debug)]
pub struct FileBody {
    data: Vec<u8>,
    start: usize,
    end: usize,
}

impl FileBody {
    pub closed spec fn first(&self) -> int {
        self.start as int
    }

    pub closed spec fn past(&self) -> int {
        self.end as int
    }

    pub closed spec fn file(&self) -> Seq<u8> {
        self.data@
    }

    /// The body lies within the file.
    pub open spec fn wf(&self) -> bool {
        0 <= self.first() <= self.past() <= self.file().len()
    }

    /// The bytes of the body.
    pub open spec fn bytes(&self) -> Seq<u8> {
        self.file().subrange(self.first(), self.past())
    }

    /// The bytes of the body from `position` on, which counts from the start of the file.
    pub open spec fn bytes_from(&self, position: int) -> Seq<u8> {
        self.file().subrange(position, self.past())
    }

    /// The bytes of `data` from `start` up to `end`.
    pub fn new(data: Vec<u8>, start: usize, end: usize) -> (body: FileBody)
        requires
            start <= end <= data@.len(),
        ensures
            body.wf(),
            body.file() == data@,
            body.first() == start,
            body.past() == end,
    {
        FileBody { data, start, end }
    }

    /// Where the body starts in the file.
    pub fn start(&self) -> (start: usize)
        ensures
            start == self.first(),
    {
        self.start
    }

    /// Where the body ends in the file.
    pub fn end(&self) -> (end: usize)
        ensures
            end == self.past(),
    {
        self.end
    }

    /// How many bytes the body has.
    pub fn len(&self) -> (len: usize)
        requires
            self.wf(),
        ensures
            len == self.bytes().len(),
    {
        self.end - self.start
    }

    /// The `size` bytes from `position` on.
    pub fn get_chunk(&self, position: usize, size: usize) -> (chunk: &[u8])
        requires
            self.wf(),
            self.first() <= position,
            position + size <= self.past(),
        ensures
            chunk@ == self.file().subrange(position as int, position + size),
    {
        vstd::slice::slice_subrange(self.data.as_slice(), position, position + size)
    }

    /// The piece to be sent from `position` on, until the body is sent.
    pub fn next_chunk(&self, position: usize) -> (chunk: Option<&[u8]>)
        requires
            self.wf(),
            self.first() <= position <= self.past(),
        ensures
            match chunk {
                Some(chunk) => {
                    &&& pieces(self.bytes_from(position as int)) == seq![chunk@] + pieces(
                        self.bytes_from(position + chunk@.len()),
                    )
                    &&& chunk@.len() > 0
                    &&& position + chunk@.len() <= self.past()
                },
                None => position == self.past() && pieces(self.bytes_from(position as int)).len()
                    == 0,
            },
    {
        if position < self.end {
            let remaining: usize = self.end - position;
            let size: usize = if remaining < CHUNK_SIZE {
                remaining
            } else {
                CHUNK_SIZE
            };
            proof {
                let rest = self.bytes_from(position as int);
                assert(rest.take(size as int) =~= self.file().subrange(
                    position as int,
                    position + size,
                ));
                assert(rest.skip(size as int) =~= self.bytes_from(position + size));
            }
            Some(self.get_chunk(position, size))
        } else {
            None
        }
    }
}

proof fn lemma_flatten_cons(first: Seq<u8>, rest: Seq<Seq<u8>>)
    ensures
        (seq![first] + rest).flatten() == first + rest.flatten(),
{
    let all = seq![first] + rest;
    assert(all.drop_first() =~= rest);
    assert(all.first() == first);
}

/// What is sent in pieces is the body: put together, the pieces are its bytes, in order and
/// without a gap. No piece is empty, none is longer than the limit, and all but the last are as
/// long as it.
pub proof fn pieces_make_the_body(bytes: Seq<u8>)
    ensures
        pieces(bytes).flatten() == bytes,
        forall|i: int|
            0 <= i < pieces(bytes).len() ==> 0 < (#[trigger] pieces(bytes)[i]).len() <= 65536,
        forall|i: int|
            0 <= i < pieces(bytes).len() - 1 ==> (#[trigger] pieces(bytes)[i]).len() == 65536,
    decreases bytes.len(),
{
    if bytes.len() == 0 {
        assert(pieces(bytes).flatten() =~= bytes);
    } else {
        let n = piece_length(bytes.len()) as int;
        let rest = bytes.skip(n);
        pieces_make_the_body(rest);
        lemma_flatten_cons(bytes.take(n), pieces(rest));
        assert(bytes.take(n) + rest =~= bytes);
        assert forall|i: int| 0 <= i < pieces(bytes).len() implies 0 < (
        #[trigger] pieces(bytes)[i]).len() <= CHUNK_SIZE by {
            if i > 0 {
                assert(pieces(bytes)[i] == pieces(rest)[i - 1]);
            }
        }
        assert forall|i: int| 0 <= i < pieces(bytes).len() - 1 implies (
        #[trigger] pieces(bytes)[i]).len() == CHUNK_SIZE by {
            if i > 0 {
                assert(pieces(bytes)[i] == pieces(rest)[i - 1]);
            } else {
                assert(pieces(rest).len() > 0);
            }
        }
    }
}

/// Bytes to be written to a file, and where.
#[derive(Debug)]
pub struct FileWrite {
    pub offset: u64,
    pub data: Vec<u8>,
}

/// What a [`FileWrite`] says.
pub struct WriteView {
    pub offset: nat,
    pub data: Seq<u8>,
}

impl View for FileWrite {
    type V = WriteView;

    open spec fn view(&self) -> WriteView {
        WriteView { offset: self.offset as nat, data: self.data@ }
    }
}

/// How far a write has come: it started at `offset`, `received` bytes of the body have come, and
/// the last of them, `pending`, are not yet written. `creates` says that the file is to be made
/// even if the body is empty.
pub struct WriterView {
    pub offset: nat,
    pub received: nat,
    pub pending: Seq<u8>,
    pub creates: bool,
}

impl WriterView {
    /// Nothing has come yet of a body that is to be written at `offset`.
    pub open spec fn at(offset: nat, creates: bool) -> WriterView {
        WriterView { offset, received: 0, pending: Seq::empty(), creates }
    }

    /// No more is pending than has been received.
    pub open spec fn wf(self) -> bool {
        self.pending.len() <= self.received
    }

    /// Where the pending bytes belong.
    pub open spec fn position(self) -> nat {
        (self.offset + self.received - self.pending.len()) as nat
    }

    /// After more of the body has come.
    pub open spec fn receive(self, chunk: Seq<u8>) -> WriterView {
        WriterView {
            offset: self.offset,
            received: self.received + chunk.len(),
            pending: self.pending + chunk,
            creates: self.creates,
        }
    }

    /// The first `n` of the pending bytes, as a write.
    pub open spec fn front(self, n: int) -> WriteView {
        WriteView { offset: self.position(), data: self.pending.take(n) }
    }

    /// After the first `n` of the pending bytes were written.
    pub open spec fn written(self, n: int) -> WriterView {
        WriterView { pending: self.pending.skip(n), ..self }
    }

    /// The writes that are due before more of the body is awaited.
    pub open spec fn due(self) -> Seq<WriteView>
        decreases self.pending.len(),
    {
        if self.pending.len() >= WRITE_CHUNK_SIZE {
            seq![self.front(WRITE_CHUNK_SIZE as int)] + self.written(WRITE_CHUNK_SIZE as int).due()
        } else {
            Seq::empty()
        }
    }

    /// After all writes that are due.
    pub open spec fn after_due(self) -> WriterView
        decreases self.pending.len(),
    {
        if self.pending.len() >= WRITE_CHUNK_SIZE {
            self.written(WRITE_CHUNK_SIZE as int).after_due()
        } else {
            self
        }
    }

    /// The write that is left when the body has ended. Where the file is to be made and the body is
    /// empty, that is an empty write.
    pub open spec fn last(self) -> Seq<WriteView> {
        if self.pending.len() > 0 || (self.received == 0 && self.creates) {
            seq![self.front(self.pending.len() as int)]
        } else {
            Seq::empty()
        }
    }

    /// All writes for a body that goes on with `chunks` and then ends.
    pub open spec fn all_writes(self, chunks: Seq<Seq<u8>>) -> Seq<WriteView>
        decreases chunks.len(),
    {
        if chunks.len() == 0 {
            self.last()
        } else {
            let state = self.receive(chunks[0]);
            state.due() + state.after_due().all_writes(chunks.skip(1))
        }
    }
}

/// Receives the body of a write piece by piece, and says what to write where.
#[derive(Debug)]
pub struct BodyWriter {
    offset: u64,
    received: u64,
    buffer: Vec<u8>,
    creates: bool,
}

impl View for BodyWriter {
    type V = WriterView;

    closed spec fn view(&self) -> WriterView {
        WriterView {
            offset: self.offset as nat,
            received: self.received as nat,
            pending: self.buffer@,
            creates: self.creates,
        }
    }
}

impl BodyWriter {
    /// Nothing has come yet of a body that is to be written at `offset`. An empty body is not
    /// written.
    pub fn new(offset: u64) -> (writer: BodyWriter)
        ensures
            writer@ == WriterView::at(offset as nat, false),
            writer@.wf(),
    {
        let writer = BodyWriter { offset, received: 0, buffer: Vec::new(), creates: false };
        proof {
            assert(writer@.pending =~= Seq::<u8>::empty());
        }
        writer
    }

    /// Nothing has come yet of a body that is to be written at `offset`, to a file that is to be
    /// made even if the body is empty.
    pub fn creating(offset: u64) -> (writer: BodyWriter)
        ensures
            writer@ == WriterView::at(offset as nat, true),
            writer@.wf(),
    {
        let writer = BodyWriter { offset, received: 0, buffer: Vec::new(), creates: true };
        proof {
            assert(writer@.pending =~= Seq::<u8>::empty());
        }
        writer
    }

    /// How many bytes of the body have come.
    pub fn received(&self) -> (received: u64)
        ensures
            received == self@.received,
    {
        self.received
    }

    /// Whether `len` more bytes can be counted.
    pub fn has_room(&self, len: usize) -> (fits: bool)
        ensures
            fits == (self@.received + len <= u64::MAX),
    {
        self.received.checked_add(len as u64).is_some()
    }

    /// Whether the place of the pending bytes is one that a file can have.
    pub fn position_fits(&self) -> (fits: bool)
        requires
            self@.wf(),
        ensures
            fits == (self@.position() <= u64::MAX),
    {
        self.offset.checked_add(self.received - self.buffer.len() as u64).is_some()
    }

    /// Takes in a piece of the body.
    pub fn receive(&mut self, chunk: &[u8])
        requires
            old(self)@.wf(),
            old(self)@.received + chunk@.len() <= u64::MAX,
        ensures
            final(self)@ == old(self)@.receive(chunk@),
            final(self)@.wf(),
    {
        self.buffer.extend_from_slice(chunk);
        self.received = self.received + chunk.len() as u64;
        proof {
            assert(self@.pending =~= old(self)@.pending + chunk@);
        }
    }

    /// Hands out the next write that is due before more of the body is awaited.
    pub fn next_write(&mut self) -> (write: Option<FileWrite>)
        requires
            old(self)@.wf(),
            old(self)@.pending.len() >= WRITE_CHUNK_SIZE ==> old(self)@.position() <= u64::MAX,
        ensures
            final(self)@.wf(),
            match write {
                Some(write) => {
                    &&& old(self)@.pending.len() >= WRITE_CHUNK_SIZE
                    &&& write@ == old(self)@.front(WRITE_CHUNK_SIZE as int)
                    &&& final(self)@ == old(self)@.written(WRITE_CHUNK_SIZE as int)
                    &&& old(self)@.due() == seq![write@] + final(self)@.due()
                    &&& final(self)@.after_due() == old(self)@.after_due()
                },
                None => {
                    &&& old(self)@.pending.len() < WRITE_CHUNK_SIZE
                    &&& final(self)@ == old(self)@
                    &&& old(self)@.due().len() == 0
                    &&& final(self)@ == old(self)@.after_due()
                },
            },
    {
        if self.buffer.len() >= WRITE_CHUNK_SIZE {
            let offset: u64 = self.offset + (self.received - self.buffer.len() as u64);
            let rest: Vec<u8> = self.buffer.split_off(WRITE_CHUNK_SIZE);
            let mut data: Vec<u8> = rest;
            std::mem::swap(&mut data, &mut self.buffer);
            let write = FileWrite { offset, data };
            proof {
                assert(write@.data =~= old(self)@.pending.take(WRITE_CHUNK_SIZE as int));
                assert(self@.pending =~= old(self)@.pending.skip(WRITE_CHUNK_SIZE as int));
            }
            Some(write)
        } else {
            None
        }
    }

    /// Hands out the write that is left when the body has ended. Where the file is to be made and
    /// the body is empty, that is an empty write at the offset.
    pub fn finish(self) -> (write: Option<FileWrite>)
        requires
            self@.wf(),
            self@.pending.len() > 0 ==> self@.position() <= u64::MAX,
        ensures
            match write {
                Some(write) => self@.last() == seq![write@],
                None => self@.last() == Seq::<WriteView>::empty(),
            },
    {
        if self.buffer.len() > 0 || (self.received == 0 && self.creates) {
            let offset: u64 = self.offset + (self.received - self.buffer.len() as u64);
            proof {
                assert(self@.pending.take(self@.pending.len() as int) =~= self@.pending);
            }
            Some(FileWrite { offset, data: self.buffer })
        } else {
            None
        }
    }
}

/// The bytes of a file after `data` was written at `offset`. A gap before it is filled with zeros.
pub open spec fn overwritten(file: Seq<u8>, offset: nat, data: Seq<u8>) -> Seq<u8> {
    if data.len() == 0 {
        file
    } else {
        let end = offset + data.len();
        Seq::new(
            if file.len() < end {
                end
            } else {
                file.len()
            },
            |i: int|
                if offset <= i < end {
                    data[i - offset]
                } else if i < file.len() {
                    file[i]
                } else {
                    0u8
                },
        )
    }
}

/// A file after some writes, one after the other: a write makes the file if it is not there.
pub open spec fn file_after(file: Option<Seq<u8>>, writes: Seq<WriteView>) -> Option<Seq<u8>> {
    if writes.len() == 0 {
        file
    } else {
        Some(
            after_writes(
                match file {
                    Some(bytes) => bytes,
                    None => Seq::empty(),
                },
                writes,
            ),
        )
    }
}

/// The bytes of a file after some writes, one after the other.
pub open spec fn after_writes(file: Seq<u8>, writes: Seq<WriteView>) -> Seq<u8>
    decreases writes.len(),
{
    if writes.len() == 0 {
        file
    } else {
        after_writes(overwritten(file, writes[0].offset, writes[0].data), writes.skip(1))
    }
}

proof fn lemma_overwrite_in_two(file: Seq<u8>, offset: nat, a: Seq<u8>, b: Seq<u8>)
    ensures
        overwritten(overwritten(file, offset, a), offset + a.len(), b) == overwritten(
            file,
            offset,
            a + b,
        ),
{
    assert(overwritten(overwritten(file, offset, a), offset + a.len(), b) =~= overwritten(
        file,
        offset,
        a + b,
    ));
}

proof fn lemma_writes_in_two(file: Seq<u8>, a: Seq<WriteView>, b: Seq<WriteView>)
    ensures
        after_writes(file, a + b) == after_writes(after_writes(file, a), b),
    decreases a.len(),
{
    if a.len() == 0 {
        assert(a + b =~= b);
    } else {
        assert((a + b).skip(1) =~= a.skip(1) + b);
        lemma_writes_in_two(overwritten(file, a[0].offset, a[0].data), a.skip(1), b);
    }
}

proof fn lemma_due(file: Seq<u8>, state: WriterView, tail: Seq<u8>)
    requires
        state.wf(),
    ensures
        state.after_due().wf(),
        state.after_due().offset == state.offset,
        overwritten(
            after_writes(file, state.due()),
            state.after_due().position(),
            state.after_due().pending + tail,
        ) == overwritten(file, state.position(), state.pending + tail),
    decreases state.pending.len(),
{
    if state.pending.len() >= WRITE_CHUNK_SIZE {
        let n = WRITE_CHUNK_SIZE as int;
        let next = state.written(n);
        let front = state.front(n);
        let file2 = overwritten(file, front.offset, front.data);
        lemma_due(file2, next, tail);
        assert((seq![front] + next.due()).skip(1) =~= next.due());
        assert(state.due()[0] == front);
        assert(after_writes(file, state.due()) == after_writes(file2, next.due()));
        lemma_overwrite_in_two(file, state.position(), front.data, next.pending + tail);
        assert(front.data + (next.pending + tail) =~= state.pending + tail);
    }
}

proof fn lemma_all_writes(file: Seq<u8>, state: WriterView, chunks: Seq<Seq<u8>>)
    requires
        state.wf(),
    ensures
        after_writes(file, state.all_writes(chunks)) == overwritten(
            file,
            state.position(),
            state.pending + chunks.flatten(),
        ),
    decreases chunks.len(),
{
    if chunks.len() == 0 {
        assert(state.pending + chunks.flatten() =~= state.pending);
        if state.pending.len() > 0 || (state.received == 0 && state.creates) {
            let write = state.front(state.pending.len() as int);
            assert(write.data =~= state.pending);
            assert(seq![write].skip(1).len() == 0);
            assert(after_writes(file, seq![write]) == after_writes(
                overwritten(file, write.offset, write.data),
                seq![write].skip(1),
            ));
        }
    } else {
        let next = state.receive(chunks[0]);
        let rest = chunks.skip(1);
        let tail = rest.flatten();
        lemma_due(file, next, tail);
        lemma_writes_in_two(file, next.due(), next.after_due().all_writes(rest));
        lemma_all_writes(after_writes(file, next.due()), next.after_due(), rest);
        assert(chunks.drop_first() =~= rest);
        assert(next.pending + tail =~= state.pending + chunks.flatten());
        assert(next.position() == state.position());
    }
}

/// The writes for a body that is to be written at `offset` and is known as a whole.
pub open spec fn writes_of(offset: nat, bytes: Seq<u8>) -> Seq<WriteView>
    decreases bytes.len(),
{
    if bytes.len() == 0 {
        Seq::empty()
    } else {
        let n = if bytes.len() < WRITE_CHUNK_SIZE {
            bytes.len()
        } else {
            WRITE_CHUNK_SIZE as nat
        };
        seq![WriteView { offset, data: bytes.take(n as int) }] + writes_of(
            offset + n,
            bytes.skip(n as int),
        )
    }
}

proof fn lemma_due_writes(state: WriterView, tail: Seq<u8>)
    requires
        state.wf(),
    ensures
        state.after_due().wf(),
        state.after_due().pending.len() < WRITE_CHUNK_SIZE,
        state.after_due().received == state.received,
        state.after_due().creates == state.creates,
        writes_of(state.position(), state.pending + tail) == state.due() + writes_of(
            state.after_due().position(),
            state.after_due().pending + tail,
        ),
    decreases state.pending.len(),
{
    if state.pending.len() >= WRITE_CHUNK_SIZE {
        let n = WRITE_CHUNK_SIZE as int;
        let next = state.written(n);
        let all = state.pending + tail;
        lemma_due_writes(next, tail);
        assert(all.take(n) =~= state.pending.take(n));
        assert(all.skip(n) =~= next.pending + tail);
        assert(state.due() == seq![state.front(n)] + next.due());
        assert(writes_of(state.position(), all) =~= state.due() + writes_of(
            next.after_due().position(),
            next.after_due().pending + tail,
        ));
    } else {
        assert(state.due() + writes_of(state.position(), state.pending + tail) =~= writes_of(
            state.position(),
            state.pending + tail,
        ));
    }
}

proof fn lemma_writes_of_state(state: WriterView, chunks: Seq<Seq<u8>>)
    requires
        state.wf(),
        state.pending.len() < WRITE_CHUNK_SIZE,
        state.received > 0 || chunks.flatten().len() > 0 || !state.creates,
    ensures
        state.all_writes(chunks) == writes_of(state.position(), state.pending + chunks.flatten()),
    decreases chunks.len(),
{
    if chunks.len() == 0 {
        let bytes = state.pending + chunks.flatten();
        assert(bytes =~= state.pending);
        if bytes.len() > 0 {
            assert(bytes.take(bytes.len() as int) =~= state.pending.take(bytes.len() as int));
            assert(bytes.skip(bytes.len() as int).len() == 0);
            assert(writes_of(
                state.position() + bytes.len(),
                bytes.skip(bytes.len() as int),
            ) =~= Seq::<WriteView>::empty());
            assert(writes_of(state.position(), bytes) =~= state.last());
        }
    } else {
        let next = state.receive(chunks[0]);
        let rest = chunks.skip(1);
        assert(chunks.drop_first() =~= rest);
        lemma_due_writes(next, rest.flatten());
        lemma_writes_of_state(next.after_due(), rest);
        assert(next.pending + rest.flatten() =~= state.pending + chunks.flatten());
        assert(next.position() == state.position());
    }
}

proof fn lemma_empty_body(state: WriterView, chunks: Seq<Seq<u8>>)
    requires
        state.received == 0,
        state.pending.len() == 0,
        state.creates,
        chunks.flatten().len() == 0,
    ensures
        state.all_writes(chunks) == seq![
            WriteView { offset: state.offset, data: Seq::<u8>::empty() },
        ],
    decreases chunks.len(),
{
    if chunks.len() == 0 {
        assert(state.pending.take(0) =~= Seq::<u8>::empty());
    } else {
        let rest = chunks.skip(1);
        assert(chunks.drop_first() =~= rest);
        assert(chunks.flatten() == chunks[0] + rest.flatten());
        let next = state.receive(chunks[0]);
        lemma_empty_body(next, rest);
        assert(next.due() + next.all_writes(rest) =~= next.all_writes(rest));
    }
}

/// The writes for a body depend on the body alone, not on the pieces in which it comes. An empty
/// body is written only where the file is to be made: by one empty write at the offset.
pub proof fn writes_depend_on_body(offset: nat, creates: bool, chunks: Seq<Seq<u8>>)
    ensures
        WriterView::at(offset, creates).all_writes(chunks) == if chunks.flatten().len() == 0
            && creates {
            seq![WriteView { offset, data: Seq::<u8>::empty() }]
        } else {
            writes_of(offset, chunks.flatten())
        },
{
    let state = WriterView::at(offset, creates);
    if chunks.flatten().len() == 0 && creates {
        lemma_empty_body(state, chunks);
    } else {
        lemma_writes_of_state(state, chunks);
        assert(state.pending + chunks.flatten() =~= chunks.flatten());
    }
}

/// Where the file is to be made, an empty body is one empty write at the offset, however it comes.
/// Any other empty body has no write.
pub proof fn empty_body_is_written(offset: nat, creates: bool, chunks: Seq<Seq<u8>>)
    requires
        chunks.flatten().len() == 0,
    ensures
        WriterView::at(offset, creates).all_writes(chunks) == if creates {
            seq![WriteView { offset, data: Seq::<u8>::empty() }]
        } else {
            Seq::<WriteView>::empty()
        },
{
    writes_depend_on_body(offset, creates, chunks);
}

/// The writes for a body are pieces of it, none empty, all but the last of the full length and the
/// last no longer, each where the one before it ends, and the last one ends where the body ends.
pub proof fn writes_adjoin(offset: nat, bytes: Seq<u8>)
    ensures
        ({
            let writes = writes_of(offset, bytes);
            &&& writes.len() == 0 <==> bytes.len() == 0
            &&& forall|i: int|
                0 <= i < writes.len() ==> 0 < (#[trigger] writes[i]).data.len() <= 65536
            &&& forall|i: int|
                0 <= i < writes.len() - 1 ==> (#[trigger] writes[i]).data.len() == 65536
            &&& writes.len() > 0 ==> writes[0].offset == offset && writes.last().offset
                + writes.last().data.len() == offset + bytes.len()
            &&& forall|i: int, j: int|
                #![trigger writes[i], writes[j]]
                0 <= i < writes.len() && j == i + 1 && j < writes.len() ==> writes[j].offset
                    == writes[i].offset + writes[i].data.len()
            &&& forall|i: int|
                0 <= i < writes.len() ==> offset <= (#[trigger] writes[i]).offset
                    && writes[i].offset + writes[i].data.len() <= offset + bytes.len()
                    && writes[i].data == bytes.subrange(
                    writes[i].offset - offset,
                    writes[i].offset - offset + writes[i].data.len(),
                )
        }),
    decreases bytes.len(),
{
    if bytes.len() > 0 {
        let n = if bytes.len() < WRITE_CHUNK_SIZE {
            bytes.len()
        } else {
            WRITE_CHUNK_SIZE as nat
        };
        let rest = bytes.skip(n as int);
        writes_adjoin(offset + n, rest);
        let writes = writes_of(offset, bytes);
        let others = writes_of(offset + n, rest);
        assert(writes[0].data == bytes.take(n as int));
        assert forall|i: int| 0 < i < writes.len() implies (#[trigger] writes[i]) == others[i - 1] by {}
        if others.len() > 0 {
            assert(writes.last() == others.last());
        }
        assert forall|i: int| 0 <= i < writes.len() implies offset <= (#[trigger] writes[i]).offset
            && writes[i].offset + writes[i].data.len() <= offset + bytes.len() && writes[i].data
            == bytes.subrange(
            writes[i].offset - offset,
            writes[i].offset - offset + writes[i].data.len(),
        ) by {
            let from = writes[i].offset - offset;
            let to = from + writes[i].data.len();
            if i == 0 {
                assert(bytes.take(n as int) =~= bytes.subrange(from, to));
            } else {
                assert(others[i - 1] == writes[i]);
                assert(rest.subrange(from - n, to - n) =~= bytes.subrange(from, to));
            }
        }
        assert forall|i: int, j: int|
            #![trigger writes[i], writes[j]]
            0 <= i < writes.len() && j == i + 1 && j < writes.len() implies writes[j].offset
            == writes[i].offset + writes[i].data.len() by {
            if i > 0 {
                assert(others[i - 1] == writes[i] && others[j - 1] == writes[j]);
            }
        }
    }
}

/// However a body comes in pieces, writing it leaves the file as if it had been written whole.
pub proof fn writes_make_the_body(file: Seq<u8>, offset: nat, creates: bool, chunks: Seq<Seq<u8>>)
    ensures
        after_writes(file, WriterView::at(offset, creates).all_writes(chunks)) == overwritten(
            file,
            offset,
            chunks.flatten(),
        ),
{
    let state = WriterView::at(offset, creates);
    lemma_all_writes(file, state, chunks);
    assert(state.pending + chunks.flatten() =~= chunks.flatten());
}

/// What was written to a file stands in it, where it was written, and nothing else has changed. The
/// file grows just as far as it must, and a gap before what was written is filled with zeros.
pub proof fn written_bytes_stand(file: Seq<u8>, offset: nat, data: Seq<u8>)
    requires
        data.len() > 0,
    ensures
        overwritten(file, offset, data).len() == if file.len() < offset + data.len() {
            offset + data.len()
        } else {
            file.len()
        },
        forall|i: int|
            file.len() <= i < offset ==> #[trigger] overwritten(file, offset, data)[i] == 0,
        overwritten(file, offset, data).subrange(offset as int, (offset + data.len()) as int)
            == data,
        forall|i: int|
            0 <= i < file.len() && !(offset <= i < offset + data.len()) ==> #[trigger] overwritten(
                file,
                offset,
                data,
            )[i] == file[i],
{
    assert(overwritten(file, offset, data).subrange(offset as int, (offset + data.len()) as int)
        =~= data);
}

/// Without a write a file stays as it is, or stays away. A write makes the file if it is not there,
/// and one of nothing changes no byte.
pub proof fn writes_make_the_file(file: Seq<u8>, offset: nat, data: Seq<u8>)
    ensures
        file_after(None, Seq::empty()) is None,
        file_after(Some(file), Seq::empty()) == Some(file),
        file_after(None, seq![WriteView { offset, data }]) == Some(
            overwritten(Seq::empty(), offset, data),
        ),
        file_after(Some(file), seq![WriteView { offset, data }]) == Some(
            overwritten(file, offset, data),
        ),
        data.len() == 0 ==> overwritten(file, offset, data) == file,
{
    let one = seq![WriteView { offset, data }];
    assert(one.skip(1) =~= Seq::<WriteView>::empty());
    assert forall|f: Seq<u8>| #[trigger] after_writes(f, one) == overwritten(f, offset, data) by {
        assert(after_writes(overwritten(f, offset, data), one.skip(1)) == overwritten(
            f,
            offset,
            data,
        ));
    }
}

} // verus!

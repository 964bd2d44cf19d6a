//! Cursor and read-ahead window over a raw volume.
//!
//! A raw volume only serves reads that start on a sector boundary and span
//! whole sectors. [`VolumeReader`] keeps a byte-granular cursor and one
//! window of the device in memory, and decides for every request whether
//! the window can serve it or which aligned range has to be fetched first.
//! The device itself is driven by the caller.

use vstd::arithmetic::div_mod::lemma_fundamental_div_mod;
use vstd::arithmetic::div_mod::lemma_mod_multiples_basic;
use vstd::prelude::*;

verus! {

/// Length of the read-ahead window of a reader made by [`VolumeReader::new`].
pub const WINDOW_LEN: usize = 4194304;

/// Mathematical value of a [`VolumeReader`].
pub struct ReaderView {
    pub position: int,
    pub window_start: Option<int>,
    pub window: Seq<u8>,
    pub bytes_per_sector: int,
}

/// The bytes that a fetch of `len` bytes at `start` leaves in the window:
/// the device's bytes as far as it reaches, zero beyond its end.
pub open spec fn device_window(dev: Seq<u8>, start: int, len: int) -> Seq<u8> {
    Seq::new(
        len as nat,
        |j: int|
            if 0 <= start + j < dev.len() {
                dev[start + j]
            } else {
                0u8
            },
    )
}

/// `data` holds the device's bytes from `start` on, as far as both reach.
pub open spec fn is_window_of(data: Seq<u8>, dev: Seq<u8>, start: int) -> bool {
    forall|j: int| 0 <= j < data.len() && start + j < dev.len() ==> data[j] == dev[start + j]
}

impl ReaderView {
    /// The cursor is a device offset, the window spans a positive number
    /// of whole sectors and, where valid, starts on a sector boundary.
    pub open spec fn wf(self) -> bool {
        &&& 0 <= self.position <= i64::MAX
        &&& 0 < self.bytes_per_sector <= self.window.len()
        &&& self.window.len() as int % self.bytes_per_sector == 0
        &&& self.window_start matches Some(p) ==> 0 <= p <= i64::MAX && p % self.bytes_per_sector
            == 0
    }

    /// The cursor rounded down to a sector boundary.
    pub open spec fn aligned_start(self) -> int {
        (self.position / self.bytes_per_sector) * self.bytes_per_sector
    }

    /// The window is valid and a request of `len` bytes at the cursor lies
    /// strictly inside it.
    pub open spec fn hits(self, len: int) -> bool {
        self.window_start matches Some(p) && p <= self.position && self.position + len < p
            + self.window.len()
    }

    /// A request of `len` bytes at the cursor fits a window fetched for it.
    pub open spec fn in_bounds(self, len: int) -> bool {
        &&& self.position - self.aligned_start() + len <= self.window.len()
        &&& self.position + len <= i64::MAX
    }

    /// The window is valid and holds the `len` bytes at the cursor.
    pub open spec fn covers(self, len: int) -> bool {
        &&& self.window_start matches Some(p) && p <= self.position && self.position + len <= p
            + self.window.len()
        &&& self.position + len <= i64::MAX
    }

    /// The window, where valid, agrees with the device.
    pub open spec fn mirrors(self, dev: Seq<u8>) -> bool {
        self.window_start matches Some(p) ==> is_window_of(self.window, dev, p)
    }

    /// The `len` bytes at the cursor, taken from the window.
    pub open spec fn served(self, len: int) -> Seq<u8> {
        let off = self.position - self.window_start.unwrap();
        self.window.subrange(off, off + len)
    }

    /// This state without a valid window.
    pub open spec fn invalidated(self) -> ReaderView {
        ReaderView { window_start: None, ..self }
    }

    /// This state with `data` as the window for the device offset `start`.
    pub open spec fn with_window(self, start: int, data: Seq<u8>) -> ReaderView {
        ReaderView { window_start: Some(start), window: data, ..self }
    }

    /// This state with the cursor `len` bytes further on.
    pub open spec fn advanced(self, len: int) -> ReaderView {
        ReaderView { position: self.position + len, ..self }
    }

    /// This state with the cursor at `position`.
    pub open spec fn moved_to(self, position: int) -> ReaderView {
        ReaderView { position, ..self }
    }

    /// Whether `fetched` can stand for what the device `dev` returns when a
    /// request at the cursor misses the window: a window's length of bytes
    /// that agree with the device from the aligned cursor on.
    pub open spec fn fetches(self, dev: Seq<u8>, fetched: Seq<u8>) -> bool {
        &&& fetched.len() == self.window.len()
        &&& is_window_of(fetched, dev, self.aligned_start())
    }

    /// The state in which a request of `len` bytes is served: this state
    /// on a hit, else this state with `fetched` installed as the window at
    /// the aligned cursor.
    pub open spec fn ready(self, len: int, fetched: Seq<u8>) -> ReaderView {
        if self.hits(len) {
            self
        } else {
            self.invalidated().with_window(self.aligned_start(), fetched)
        }
    }

    /// A whole read of `len` bytes, where `fetched` is what the device
    /// returns should the window miss: the state after the read and the
    /// bytes returned.
    pub open spec fn read(self, len: int, fetched: Seq<u8>) -> (ReaderView, Seq<u8>) {
        (self.ready(len, fetched).advanced(len), self.ready(len, fetched).served(len))
    }

    /// The lengths `lens`, read one after another from the cursor on, each
    /// fit a window fetched for it and stay on the device `dev`, and
    /// `fetched` holds for each what the device returns on a miss.
    pub open spec fn can_read_all(self, dev: Seq<u8>, lens: Seq<int>, fetched: Seq<Seq<u8>>) -> bool
        decreases lens.len(),
    {
        &&& fetched.len() == lens.len()
        &&& lens.len() > 0 ==> {
            &&& 0 <= lens[0]
            &&& self.in_bounds(lens[0])
            &&& self.position + lens[0] <= dev.len()
            &&& self.fetches(dev, fetched[0])
            &&& self.read(lens[0], fetched[0]).0.can_read_all(
                dev,
                lens.drop_first(),
                fetched.drop_first(),
            )
        }
    }

    /// The bytes returned by reading the lengths `lens` one after another.
    pub open spec fn read_all(self, lens: Seq<int>, fetched: Seq<Seq<u8>>) -> Seq<Seq<u8>>
        decreases lens.len(),
    {
        if lens.len() == 0 || fetched.len() == 0 {
            Seq::empty()
        } else {
            seq![self.read(lens[0], fetched[0]).1] + self.read(lens[0], fetched[0]).0.read_all(
                lens.drop_first(),
                fetched.drop_first(),
            )
        }
    }
}

/// The bytes that reads of the lengths `lens`, one after another from
/// `position` on, take from the device without any window.
pub open spec fn direct_reads(dev: Seq<u8>, position: int, lens: Seq<int>) -> Seq<Seq<u8>>
    decreases lens.len(),
{
    if lens.len() == 0 {
        Seq::empty()
    } else {
        seq![dev.subrange(position, position + lens[0])] + direct_reads(
            dev,
            position + lens[0],
            lens.drop_first(),
        )
    }
}

/// The aligned cursor is a sector boundary at or below the cursor, less
/// than a sector away from it.
pub proof fn lemma_aligned_start(v: ReaderView)
    requires
        v.wf(),
    ensures
        0 <= v.aligned_start() <= v.position,
        v.position - v.aligned_start() < v.bytes_per_sector,
        v.position - v.aligned_start() == v.position % v.bytes_per_sector,
        v.aligned_start() % v.bytes_per_sector == 0,
{
    lemma_fundamental_div_mod(v.position, v.bytes_per_sector);
    lemma_mod_multiples_basic(v.position / v.bytes_per_sector, v.bytes_per_sector);
    assert(v.bytes_per_sector * (v.position / v.bytes_per_sector) == (v.position
        / v.bytes_per_sector) * v.bytes_per_sector) by (nonlinear_arith);
}

/// The zero-padded window of a device agrees with the device.
pub proof fn lemma_device_window(dev: Seq<u8>, start: int, len: int)
    requires
        0 <= start,
        0 <= len,
    ensures
        device_window(dev, start, len).len() == len,
        is_window_of(device_window(dev, start, len), dev, start),
{
}

/// A read through the window returns the device's bytes at the cursor and
/// leaves a window that still agrees with the device.
pub proof fn lemma_read_is_direct(v: ReaderView, dev: Seq<u8>, len: int, fetched: Seq<u8>)
    requires
        v.wf(),
        v.mirrors(dev),
        0 <= len,
        v.in_bounds(len),
        v.position + len <= dev.len(),
        v.fetches(dev, fetched),
    ensures
        v.read(len, fetched).1 == dev.subrange(v.position, v.position + len),
        v.read(len, fetched).0.wf(),
        v.read(len, fetched).0.mirrors(dev),
        v.read(len, fetched).0.position == v.position + len,
        v.read(len, fetched).0.bytes_per_sector == v.bytes_per_sector,
        v.read(len, fetched).0.window.len() == v.window.len(),
        v.ready(len, fetched).covers(len),
{
    lemma_aligned_start(v);
    let r = v.ready(len, fetched);
    assert(r.served(len) =~= dev.subrange(v.position, v.position + len));
}

/// Cache transparency: whatever the window holds to begin with, a sequence
/// of reads that stays on the device returns the same bytes as reading
/// those ranges from the device directly.
pub proof fn lemma_reads_are_direct(
    v: ReaderView,
    dev: Seq<u8>,
    lens: Seq<int>,
    fetched: Seq<Seq<u8>>,
)
    requires
        v.wf(),
        v.mirrors(dev),
        v.can_read_all(dev, lens, fetched),
    ensures
        v.read_all(lens, fetched) == direct_reads(dev, v.position, lens),
    decreases lens.len(),
{
    if lens.len() > 0 {
        lemma_read_is_direct(v, dev, lens[0], fetched[0]);
        lemma_reads_are_direct(
            v.read(lens[0], fetched[0]).0,
            dev,
            lens.drop_first(),
            fetched.drop_first(),
        );
    }
}

/// Positional determinism: two readers over one device, moved to the same
/// offset, return the same bytes whatever each has read before.
pub proof fn lemma_read_ignores_history(
    a: ReaderView,
    b: ReaderView,
    dev: Seq<u8>,
    offset: int,
    len: int,
    fetched_a: Seq<u8>,
    fetched_b: Seq<u8>,
)
    requires
        a.wf(),
        b.wf(),
        a.mirrors(dev),
        b.mirrors(dev),
        0 <= offset,
        0 <= len,
        offset + len <= dev.len(),
        a.moved_to(offset).in_bounds(len),
        b.moved_to(offset).in_bounds(len),
        a.moved_to(offset).fetches(dev, fetched_a),
        b.moved_to(offset).fetches(dev, fetched_b),
    ensures
        a.moved_to(offset).read(len, fetched_a).1 == b.moved_to(offset).read(len, fetched_b).1,
        a.moved_to(offset).read(len, fetched_a).1 == dev.subrange(offset, offset + len),
{
    lemma_read_is_direct(a.moved_to(offset), dev, len, fetched_a);
    lemma_read_is_direct(b.moved_to(offset), dev, len, fetched_b);
}

/// What has to happen before a request can be served.
#[derive(Clone, Copy, Debug)]
pub enum ReadPlan {
    /// The window holds the requested bytes.
    Serve,
    /// The window was invalidated: `len` bytes have to be fetched from the
    /// device at offset `start`, a sector boundary, and installed.
    Fetch { start: i64, len: usize },
}

/// Where a seek leads.
#[derive(Clone, Copy, Debug)]
pub enum SeekTarget {
    /// An offset from the start of the device.
    Start(u64),
    /// An offset from the cursor.
    Current(i64),
    /// An offset from the end of the device, whose size the caller has
    /// asked the device for.
    End { device_size: i64, offset: i64 },
}

/// Why a seek was refused.
#[derive(Clone, Copy, Debug)]
pub enum SeekError {
    /// The target lies before the start of the device.
    BeforeStart,
    /// The target is beyond the largest offset a device can have.
    TooFar,
}

/// The absolute position a seek asks for.
pub open spec fn seek_position(position: int, target: SeekTarget) -> int {
    match target {
        SeekTarget::Start(offset) => offset as int,
        SeekTarget::Current(offset) => position + offset,
        SeekTarget::End { device_size, offset } => device_size + offset,
    }
}

/// Sector-aligned, cached cursor over a raw volume.
pub struct VolumeReader {
    pub virtual_file_ptr: i64,
    pub read_buf_ptr: Option<i64>,
    pub read_buf: Vec<u8>,
    pub bytes_per_sector: u32,
}

impl View for VolumeReader {
    type V = ReaderView;

    open spec fn view(&self) -> ReaderView {
        ReaderView {
            position: self.virtual_file_ptr as int,
            window_start: match self.read_buf_ptr {
                Some(p) => Some(p as int),
                None => None,
            },
            window: self.read_buf@,
            bytes_per_sector: self.bytes_per_sector as int,
        }
    }
}

impl VolumeReader {
    /// A reader at offset zero with an invalid window of [`WINDOW_LEN`]
    /// bytes, for a device with sectors of `bytes_per_sector` bytes.
    pub fn new(bytes_per_sector: u32) -> (r: VolumeReader)
        requires
            0 < bytes_per_sector <= WINDOW_LEN,
            WINDOW_LEN as int % bytes_per_sector as int == 0,
        ensures
            r@.wf(),
            r@.position == 0,
            r@.window_start is None,
            r@.window.len() == WINDOW_LEN,
            forall|j: int| 0 <= j < WINDOW_LEN ==> r@.window[j] == 0,
            r@.bytes_per_sector == bytes_per_sector,
    {
        VolumeReader::with_window(bytes_per_sector, WINDOW_LEN)
    }

    /// A reader at offset zero with an invalid window of `window_len` bytes.
    pub fn with_window(bytes_per_sector: u32, window_len: usize) -> (r: VolumeReader)
        requires
            0 < bytes_per_sector <= window_len,
            window_len as int % bytes_per_sector as int == 0,
        ensures
            r@.wf(),
            r@.position == 0,
            r@.window_start is None,
            r@.window.len() == window_len,
            forall|j: int| 0 <= j < window_len ==> r@.window[j] == 0,
            r@.bytes_per_sector == bytes_per_sector,
    {
        VolumeReader {
            virtual_file_ptr: 0,
            read_buf_ptr: None,
            read_buf: vec![0u8; window_len],
            bytes_per_sector,
        }
    }

    /// The longest request that can be served at the cursor.
    pub fn max_read_len(&self) -> (max: usize)
        requires
            self@.wf(),
        ensures
            forall|len: usize| self@.in_bounds(len as int) <==> len <= max,
    {
        proof {
            lemma_aligned_start(self@);
        }
        let bps = self.bytes_per_sector as i64;
        let off = (self.virtual_file_ptr % bps) as usize;
        let room = self.read_buf.len() - off;
        let left = i64::MAX - self.virtual_file_ptr;
        if (room as u128) <= (left as u128) {
            room
        } else {
            left as usize
        }
    }

    /// Decides how a request of `len` bytes at the cursor is served. On a
    /// miss the window is invalidated and the aligned range to fetch is
    /// returned.
    pub fn plan_read(&mut self, len: usize) -> (plan: ReadPlan)
        requires
            old(self)@.wf(),
        ensures
            old(self)@.hits(len as int) ==> plan is Serve && final(self)@ == old(self)@,
            !old(self)@.hits(len as int) ==> final(self)@ == old(self)@.invalidated() && (
            plan matches ReadPlan::Fetch { start, len: window_len } && start
                == old(self)@.aligned_start() && window_len == old(self)@.window.len()),
            plan matches ReadPlan::Fetch { start, len: window_len } ==> start as int
                % old(self)@.bytes_per_sector == 0 && window_len as int
                % old(self)@.bytes_per_sector == 0,
            final(self)@.wf(),
    {
        proof {
            lemma_aligned_start(self@);
        }
        let hit = match self.read_buf_ptr {
            Some(p) => p <= self.virtual_file_ptr && (self.virtual_file_ptr as i128) + (
            len as i128) < (p as i128) + (self.read_buf.len() as i128),
            None => false,
        };
        if hit {
            ReadPlan::Serve
        } else {
            self.read_buf_ptr = None;
            let bps = self.bytes_per_sector as i64;
            let sector = self.virtual_file_ptr / bps;
            assert(sector * bps == self@.aligned_start());
            ReadPlan::Fetch { start: sector * bps, len: self.read_buf.len() }
        }
    }

    /// Installs `data` as the window for the device offset `start` and
    /// hands back the buffer that held the window before.
    pub fn install_window(&mut self, start: i64, data: Vec<u8>) -> (previous: Vec<u8>)
        requires
            old(self)@.wf(),
            0 <= start,
            start as int % old(self)@.bytes_per_sector == 0,
            data@.len() == old(self)@.window.len(),
        ensures
            final(self)@ == old(self)@.with_window(start as int, data@),
            final(self)@.wf(),
            previous@ == old(self)@.window,
    {
        let mut data = data;
        core::mem::swap(&mut self.read_buf, &mut data);
        self.read_buf_ptr = Some(start);
        data
    }

    /// Copies the `len` bytes at the cursor out of the window and moves
    /// the cursor behind them.
    pub fn serve(&mut self, len: usize) -> (out: Vec<u8>)
        requires
            old(self)@.wf(),
            old(self)@.covers(len as int),
        ensures
            out@ == old(self)@.served(len as int),
            final(self)@ == old(self)@.advanced(len as int),
            final(self)@.wf(),
    {
        let start = match self.read_buf_ptr {
            Some(p) => p,
            None => 0,
        };
        let window_len = self.read_buf.len();
        assert(0 <= self.virtual_file_ptr - start <= window_len - len);
        let off = (self.virtual_file_ptr - start) as usize;
        let mut out: Vec<u8> = Vec::new();
        let mut j: usize = 0;
        while j < len
            invariant
                j <= len,
                window_len == self.read_buf@.len(),
                off + len <= window_len,
                out@ == self.read_buf@.subrange(off as int, off + j),
            decreases len - j,
        {
            out.push(self.read_buf[off + j]);
            proof {
                assert(out@ =~= self.read_buf@.subrange(off as int, off + j + 1));
            }
            j += 1;
        }
        self.virtual_file_ptr = self.virtual_file_ptr + len as i64;
        out
    }

    /// Moves the cursor. The window is left as it is. A target before the
    /// start of the device or beyond the largest offset is refused and
    /// leaves the cursor where it was.
    pub fn seek(&mut self, target: SeekTarget) -> (r: Result<u64, SeekError>)
        requires
            old(self)@.wf(),
        ensures
            final(self)@.wf(),
            match r {
                Ok(position) => {
                    &&& position == seek_position(old(self)@.position, target)
                    &&& position <= i64::MAX
                    &&& final(self)@ == old(self)@.moved_to(position as int)
                },
                Err(SeekError::BeforeStart) => {
                    &&& seek_position(old(self)@.position, target) < 0
                    &&& final(self)@ == old(self)@
                },
                Err(SeekError::TooFar) => {
                    &&& seek_position(old(self)@.position, target) > i64::MAX
                    &&& final(self)@ == old(self)@
                },
            },
    {
        let wanted: i128 = match target {
            SeekTarget::Start(offset) => offset as i128,
            SeekTarget::Current(offset) => self.virtual_file_ptr as i128 + offset as i128,
            SeekTarget::End { device_size, offset } => device_size as i128 + offset as i128,
        };
        if wanted < 0 {
            Err(SeekError::BeforeStart)
        } else if wanted > i64::MAX as i128 {
            Err(SeekError::TooFar)
        } else {
            self.virtual_file_ptr = wanted as i64;
            Ok(wanted as u64)
        }
    }

    /// The window of `len` bytes at offset `start` of a device held in
    /// memory, zero beyond its end.
    pub fn fetch_from_image(image: &Vec<u8>, start: i64, len: usize) -> (data: Vec<u8>)
        requires
            0 <= start,
        ensures
            data@ == device_window(image@, start as int, len as int),
    {
        let mut data: Vec<u8> = Vec::new();
        let mut j: usize = 0;
        while j < len
            invariant
                j <= len,
                0 <= start,
                data@ == device_window(image@, start as int, j as int),
            decreases len - j,
        {
            let at = start as u128 + j as u128;
            let byte = if at < image.len() as u128 {
                image[at as usize]
            } else {
                0u8
            };
            data.push(byte);
            proof {
                assert(data@ =~= device_window(image@, start as int, j + 1));
            }
            j += 1;
        }
        data
    }

    /// A whole read of `len` bytes at the cursor over a device held in
    /// memory: fetches a new window where the present one cannot serve
    /// the request, then serves it.
    pub fn read_from_image(&mut self, image: &Vec<u8>, len: usize) -> (out: Vec<u8>)
        requires
            old(self)@.wf(),
            old(self)@.mirrors(image@),
            old(self)@.in_bounds(len as int),
            old(self)@.position + len <= image@.len(),
        ensures
            out@ == image@.subrange(old(self)@.position, old(self)@.position + len),
            (final(self)@, out@) == old(self)@.read(
                len as int,
                device_window(
                    image@,
                    old(self)@.aligned_start(),
                    old(self)@.window.len() as int,
                ),
            ),
            final(self)@.wf(),
            final(self)@.mirrors(image@),
    {
        proof {
            lemma_aligned_start(self@);
            lemma_device_window(image@, self@.aligned_start(), self@.window.len() as int);
            lemma_read_is_direct(
                self@,
                image@,
                len as int,
                device_window(image@, self@.aligned_start(), self@.window.len() as int),
            );
        }
        match self.plan_read(len) {
            ReadPlan::Serve => {},
            ReadPlan::Fetch { start, len: window_len } => {
                let data = VolumeReader::fetch_from_image(image, start, window_len);
                let _ = self.install_window(start, data);
            },
        }
        self.serve(len)
    }
}

} // verus!

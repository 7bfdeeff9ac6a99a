//! Speech requests: the pending queue, the address of cached audio, and the
//! decisions of the request and worker cycles.

use crate::text::{chars_of, extend_chars, lemma_views_push, opt_view, str_eq, string_of, views};
use vstd::prelude::*;
use vstd::string::StringSliceAdditionalSpecFns;

verus! {

/// Directory of the audio cache, below the temporary directory.
pub const CACHE_DIR_NAME: &'static str = "rishi_tts";

/// A request for the audio of a passage.
#[derive(Debug)]
pub struct TtsTask {
    /// Higher priorities are served sooner.
    pub priority: u32,
    pub book_id: String,
    pub cfi_range: String,
    pub text: String,
    pub voice: Option<String>,
    /// The speaking rate, as the bits of a single-precision number.
    pub rate_bits: Option<u32>,
}

/// The mathematical model of `TtsTask`.
pub struct TtsTaskView {
    pub priority: u32,
    pub book_id: Seq<char>,
    pub cfi_range: Seq<char>,
    pub text: Seq<char>,
    pub voice: Option<Seq<char>>,
    pub rate_bits: Option<u32>,
}

impl View for TtsTask {
    type V = TtsTaskView;

    open spec fn view(&self) -> TtsTaskView {
        TtsTaskView {
            priority: self.priority,
            book_id: self.book_id@,
            cfi_range: self.cfi_range@,
            text: self.text@,
            voice: opt_view(self.voice),
            rate_bits: self.rate_bits,
        }
    }
}

/// What the queue reports of itself.
#[derive(Debug, Clone, Copy, PartialEq, Eq)]
pub struct TtsQueueStatus {
    pub pending: usize,
    pub is_processing: bool,
    pub active: usize,
}

/// The queue: pending tasks in the order in which they were added, and the
/// state of the worker.
#[derive(Debug)]
pub struct TtsQueueState {
    pub pending: Vec<TtsTask>,
    pub is_processing: bool,
    pub active: usize,
}

/// The mathematical model of `TtsQueue`.
pub struct TtsQueueView {
    pub pending: Seq<TtsTaskView>,
    pub is_processing: bool,
    pub active: usize,
}

impl View for TtsQueueState {
    type V = TtsQueueView;

    open spec fn view(&self) -> TtsQueueView {
        TtsQueueView {
            pending: views(self.pending@),
            is_processing: self.is_processing,
            active: self.active,
        }
    }
}

/// Whether a task is for the passage `(book, cfi)`.
pub open spec fn is_for(t: TtsTaskView, book: Seq<char>, cfi: Seq<char>) -> bool {
    t.book_id == book && t.cfi_range == cfi
}

/// Index of the task that is served next among the first `n`: the first of
/// those with the highest priority.
pub open spec fn next_index(pending: Seq<TtsTaskView>, n: int) -> int
    decreases n,
{
    if n <= 1 || n > pending.len() {
        0
    } else {
        let b = next_index(pending, n - 1);
        if pending[n - 1].priority > pending[b].priority {
            n - 1
        } else {
            b
        }
    }
}

/// The first `n` tasks without those for the passage `(book, cfi)`.
pub open spec fn without_passage(pending: Seq<TtsTaskView>, book: Seq<char>, cfi: Seq<char>, n: int) -> Seq<
    TtsTaskView,
>
    decreases n,
{
    if n <= 0 || n > pending.len() {
        Seq::empty()
    } else if is_for(pending[n - 1], book, cfi) {
        without_passage(pending, book, cfi, n - 1)
    } else {
        without_passage(pending, book, cfi, n - 1).push(pending[n - 1])
    }
}

/// The first `n` tasks without those of the book `book`.
pub open spec fn without_book(pending: Seq<TtsTaskView>, book: Seq<char>, n: int) -> Seq<TtsTaskView>
    decreases n,
{
    if n <= 0 || n > pending.len() {
        Seq::empty()
    } else if pending[n - 1].book_id == book {
        without_book(pending, book, n - 1)
    } else {
        without_book(pending, book, n - 1).push(pending[n - 1])
    }
}

/// The order in which the pending tasks are served: by priority, highest
/// first, and among equal priorities in the order in which they were added.
pub open spec fn service_order(pending: Seq<TtsTaskView>) -> Seq<TtsTaskView>
    decreases pending.len(),
{
    if pending.len() == 0 {
        Seq::empty()
    } else {
        let i = next_index(pending, pending.len() as int);
        if 0 <= i < pending.len() {
            seq![pending[i]] + service_order(pending.remove(i))
        } else {
            Seq::empty()
        }
    }
}

/// The task that is served next has the highest priority and is the first of that priority.
pub proof fn lemma_next_index(pending: Seq<TtsTaskView>, n: int)
    requires
        1 <= n <= pending.len(),
    ensures
        0 <= next_index(pending, n) < n,
        forall|j: int|
            0 <= j < n ==> (#[trigger] pending[j]).priority <= pending[next_index(
                pending,
                n,
            )].priority,
        forall|j: int|
            0 <= j < next_index(pending, n) ==> (#[trigger] pending[j]).priority < pending[next_index(
                pending,
                n,
            )].priority,
    decreases n,
{
    if n > 1 {
        lemma_next_index(pending, n - 1);
    }
}

/// The address of cached audio: the hexadecimal BLAKE3 hash of the input.
pub uninterp spec fn blake3_hex_of(data: Seq<u8>) -> Seq<char>;

/// `blake3::hash` of the input, written with `Hash::to_hex`: the lowercase
/// hexadecimal text of the BLAKE3 hash.
#[verifier::external_body]
fn blake3_hex(data: &[u8]) -> (r: String)
    ensures
        r@ == blake3_hex_of(data@),
{
    blake3::hash(data).to_hex().to_string()
}

/// The key of the audio of a passage: the hash of the book id followed by
/// the location, both as UTF-8. The text of the passage is no part of it.
pub open spec fn audio_key_of(book_id: Seq<char>, cfi: Seq<char>) -> Seq<char> {
    blake3_hex_of(vstd::utf8::encode_utf8(book_id) + vstd::utf8::encode_utf8(cfi))
}

/// The path of the audio of a passage below the cache directory `dir`:
/// `<dir>/<book>/<key>.mp3`.
pub open spec fn audio_path_of(dir: Seq<char>, book_id: Seq<char>, cfi: Seq<char>) -> Seq<char> {
    dir + seq!['/'] + book_id + seq!['/'] + audio_key_of(book_id, cfi) + ".mp3"@
}

/// The key of the audio of a passage.
pub fn audio_key(book_id: &str, cfi: &str) -> (r: String)
    ensures
        r@ == audio_key_of(book_id@, cfi@),
{
    let mut data: Vec<u8> = Vec::new();
    let a = book_id.as_bytes();
    let mut i: usize = 0;
    while i < a.len()
        invariant
            i <= a.len(),
            data@ == a@.take(i as int),
        decreases a.len() - i,
    {
        data.push(a[i]);
        assert(a@.take(i as int).push(a@[i as int]) =~= a@.take(i + 1));
        i += 1;
    }
    assert(a@.take(a@.len() as int) =~= a@);
    let b = cfi.as_bytes();
    let mut k: usize = 0;
    assert(a@ + b@.take(0) =~= a@);
    while k < b.len()
        invariant
            k <= b.len(),
            data@ == a@ + b@.take(k as int),
        decreases b.len() - k,
    {
        data.push(b[k]);
        assert((a@ + b@.take(k as int)).push(b@[k as int]) =~= a@ + b@.take(k + 1));
        k += 1;
    }
    assert(b@.take(b@.len() as int) =~= b@);
    blake3_hex(data.as_slice())
}

/// The path of the audio of a passage below the cache directory `dir`.
pub fn audio_path(dir: &str, book_id: &str, cfi: &str) -> (r: String)
    ensures
        r@ == audio_path_of(dir@, book_id@, cfi@),
{
    let mut out = chars_of(dir);
    out.push('/');
    let b = chars_of(book_id);
    extend_chars(&mut out, &b);
    out.push('/');
    let key = audio_key(book_id, cfi);
    let k = chars_of(key.as_str());
    extend_chars(&mut out, &k);
    let ext = chars_of(".mp3");
    extend_chars(&mut out, &ext);
    assert(out@ =~= audio_path_of(dir@, book_id@, cfi@));
    string_of(&out)
}

/// Where a request stands.
#[derive(Debug, Clone, Copy, PartialEq, Eq)]
pub enum RequestState {
    /// Nothing is known yet.
    Start,
    /// The proxy was asked and has not answered.
    AwaitingAudio,
    /// The audio is being written to the cache.
    AwaitingStore,
    /// The request is over.
    Done,
}

/// What a request learns from outside.
#[derive(Debug, PartialEq, Eq)]
pub enum RequestEvent {
    /// Whether the audio is in the cache.
    Cached(bool),
    /// The proxy answered with this status.
    Response(u16),
    /// The proxy could not be reached.
    Unreachable(String),
    /// The audio is in the cache now.
    Stored,
    /// The audio could not be written.
    StoreFailed(String),
}

/// What a request does next.
#[derive(Debug, PartialEq, Eq)]
pub enum RequestAction {
    /// Send the text to the proxy.
    AskProxy,
    /// Write the audio that the proxy sent to the cache.
    StoreAudio,
    /// Return the path of the audio.
    Succeed,
    /// Return an error.
    Fail(TtsError),
}

/// The mathematical model of `TtsError`.
pub enum TtsErrorView {
    ProxyError(u16),
    Io(Seq<char>),
    ProxyNotSet,
}

/// The mathematical model of `RequestEvent`.
pub enum RequestEventView {
    Cached(bool),
    Response(u16),
    Unreachable(Seq<char>),
    Stored,
    StoreFailed(Seq<char>),
}

/// The mathematical model of `RequestAction`.
pub enum RequestActionView {
    AskProxy,
    StoreAudio,
    Succeed,
    Fail(TtsErrorView),
}

/// The next state and action of a request. A request that finds its audio
/// cached succeeds at once; else it asks the proxy, stores the audio of an
/// answer with a status of 200..=299, and succeeds when it is stored.
/// Anything else fails the request. An event that does not fit the state
/// fails it with `Io`.
pub open spec fn request_next(state: RequestState, event: RequestEventView) -> (
    RequestState,
    RequestActionView,
) {
    match (state, event) {
        (RequestState::Start, RequestEventView::Cached(true)) => (
            RequestState::Done,
            RequestActionView::Succeed,
        ),
        (RequestState::Start, RequestEventView::Cached(false)) => (
            RequestState::AwaitingAudio,
            RequestActionView::AskProxy,
        ),
        (RequestState::AwaitingAudio, RequestEventView::Response(status)) => if 200 <= status
            <= 299 {
            (RequestState::AwaitingStore, RequestActionView::StoreAudio)
        } else {
            (RequestState::Done, RequestActionView::Fail(TtsErrorView::ProxyError(status)))
        },
        (RequestState::AwaitingStore, RequestEventView::Stored) => (
            RequestState::Done,
            RequestActionView::Succeed,
        ),
        (_, RequestEventView::Unreachable(e)) => (
            RequestState::Done,
            RequestActionView::Fail(TtsErrorView::Io(e)),
        ),
        (_, RequestEventView::StoreFailed(e)) => (
            RequestState::Done,
            RequestActionView::Fail(TtsErrorView::Io(e)),
        ),
        _ => (RequestState::Done, RequestActionView::Fail(TtsErrorView::Io(Seq::empty()))),
    }
}

/// Why a request failed.
#[derive(Debug, PartialEq, Eq)]
pub enum TtsError {
    /// The proxy answered with a status outside 200..=299.
    ProxyError(u16),
    /// The proxy could not be reached or the audio could not be stored.
    Io(String),
    /// No proxy is configured.
    ProxyNotSet,
}

/// Judges the status of the proxy's answer: any of 200..=299 is a success.
pub fn check_status(status: u16) -> (r: Result<(), TtsError>)
    ensures
        r is Ok <==> 200 <= status <= 299,
        r is Err ==> r->Err_0 == TtsError::ProxyError(status),
{
    if 200 <= status && status <= 299 {
        Ok(())
    } else {
        Err(TtsError::ProxyError(status))
    }
}

impl View for TtsError {
    type V = TtsErrorView;

    open spec fn view(&self) -> TtsErrorView {
        match *self {
            TtsError::ProxyError(s) => TtsErrorView::ProxyError(s),
            TtsError::Io(e) => TtsErrorView::Io(e@),
            TtsError::ProxyNotSet => TtsErrorView::ProxyNotSet,
        }
    }
}

impl View for RequestEvent {
    type V = RequestEventView;

    open spec fn view(&self) -> RequestEventView {
        match *self {
            RequestEvent::Cached(b) => RequestEventView::Cached(b),
            RequestEvent::Response(s) => RequestEventView::Response(s),
            RequestEvent::Unreachable(e) => RequestEventView::Unreachable(e@),
            RequestEvent::Stored => RequestEventView::Stored,
            RequestEvent::StoreFailed(e) => RequestEventView::StoreFailed(e@),
        }
    }
}

impl View for RequestAction {
    type V = RequestActionView;

    open spec fn view(&self) -> RequestActionView {
        match *self {
            RequestAction::AskProxy => RequestActionView::AskProxy,
            RequestAction::StoreAudio => RequestActionView::StoreAudio,
            RequestAction::Succeed => RequestActionView::Succeed,
            RequestAction::Fail(e) => RequestActionView::Fail(e@),
        }
    }
}

/// Takes a request one step on.
pub fn request_step(state: RequestState, event: RequestEvent) -> (r: (RequestState, RequestAction))
    ensures
        r.0 == request_next(state, event@).0,
        r.1@ == request_next(state, event@).1,
{
    match event {
        RequestEvent::Cached(hit) => match state {
            RequestState::Start => if hit {
                (RequestState::Done, RequestAction::Succeed)
            } else {
                (RequestState::AwaitingAudio, RequestAction::AskProxy)
            },
            _ => (RequestState::Done, RequestAction::Fail(TtsError::Io(String::new()))),
        },
        RequestEvent::Response(status) => match state {
            RequestState::AwaitingAudio => match check_status(status) {
                Ok(()) => (RequestState::AwaitingStore, RequestAction::StoreAudio),
                Err(e) => (RequestState::Done, RequestAction::Fail(e)),
            },
            _ => (RequestState::Done, RequestAction::Fail(TtsError::Io(String::new()))),
        },
        RequestEvent::Unreachable(e) => (RequestState::Done, RequestAction::Fail(TtsError::Io(e))),
        RequestEvent::Stored => match state {
            RequestState::AwaitingStore => (RequestState::Done, RequestAction::Succeed),
            _ => (RequestState::Done, RequestAction::Fail(TtsError::Io(String::new()))),
        },
        RequestEvent::StoreFailed(e) => (RequestState::Done, RequestAction::Fail(TtsError::Io(e))),
    }
}

/// A request whose audio is cached succeeds without asking the proxy, and
/// does so every time: the first step of such a request is its last.
pub proof fn lemma_cached_request_skips_proxy()
    ensures
        request_next(RequestState::Start, RequestEventView::Cached(true)) == (
            RequestState::Done,
            RequestActionView::Succeed,
        ),
{
}

/// A request succeeds only from the cache or after its audio was stored.
pub proof fn lemma_success_needs_audio(state: RequestState, event: RequestEventView)
    requires
        request_next(state, event).1 == RequestActionView::Succeed,
    ensures
        (state == RequestState::Start && event == RequestEventView::Cached(true)) || (state
            == RequestState::AwaitingStore && event == RequestEventView::Stored),
{
}

/// What the worker tells the host when it is done with a task.
#[derive(Debug)]
pub enum TtsEvent {
    AudioReady { book_id: String, cfi_range: String, audio_path: String },
    Error { book_id: String, cfi_range: String, error: String },
}

/// The mathematical model of `TtsEvent`.
pub enum TtsEventView {
    AudioReady { book_id: Seq<char>, cfi_range: Seq<char>, audio_path: Seq<char> },
    Error { book_id: Seq<char>, cfi_range: Seq<char>, error: Seq<char> },
}

impl View for TtsEvent {
    type V = TtsEventView;

    open spec fn view(&self) -> TtsEventView {
        match *self {
            TtsEvent::AudioReady { book_id, cfi_range, audio_path } => TtsEventView::AudioReady {
                book_id: book_id@,
                cfi_range: cfi_range@,
                audio_path: audio_path@,
            },
            TtsEvent::Error { book_id, cfi_range, error } => TtsEventView::Error {
                book_id: book_id@,
                cfi_range: cfi_range@,
                error: error@,
            },
        }
    }
}

/// The event that ends a task: `AudioReady` with the path on success,
/// `Error` with the message on failure, each for the task's passage.
pub fn outcome_event(task: &TtsTask, outcome: Result<String, String>) -> (r: TtsEvent)
    ensures
        r@ == (match outcome {
            Ok(path) => TtsEventView::AudioReady {
                book_id: task@.book_id,
                cfi_range: task@.cfi_range,
                audio_path: path@,
            },
            Err(e) => TtsEventView::Error {
                book_id: task@.book_id,
                cfi_range: task@.cfi_range,
                error: e@,
            },
        }),
{
    match outcome {
        Ok(path) => TtsEvent::AudioReady {
            book_id: task.book_id.clone(),
            cfi_range: task.cfi_range.clone(),
            audio_path: path,
        },
        Err(e) => TtsEvent::Error {
            book_id: task.book_id.clone(),
            cfi_range: task.cfi_range.clone(),
            error: e,
        },
    }
}

/// The name under which an event is emitted.
pub fn event_name(event: &TtsEvent) -> (r: &'static str)
    ensures
        r@ == (match event@ {
            TtsEventView::AudioReady { .. } => "tts://audioReady"@,
            TtsEventView::Error { .. } => "tts://error"@,
        }),
{
    match event {
        TtsEvent::AudioReady { .. } => "tts://audioReady",
        TtsEvent::Error { .. } => "tts://error",
    }
}

impl TtsQueueState {
    /// An empty queue with an idle worker.
    pub fn new() -> (q: TtsQueueState)
        ensures
            q@.pending.len() == 0,
            !q@.is_processing,
            q@.active == 0,
    {
        let q = TtsQueueState { pending: Vec::new(), is_processing: false, active: 0 };
        assert(views(q.pending@) =~= Seq::<TtsTaskView>::empty());
        q
    }

    /// Number of pending tasks.
    pub fn pending_len(&self) -> (n: usize)
        ensures
            n == self@.pending.len(),
    {
        self.pending.len()
    }

    /// What the queue reports of itself.
    pub fn status(&self) -> (s: TtsQueueStatus)
        ensures
            s.pending == self@.pending.len(),
            s.is_processing == self@.is_processing,
            s.active == self@.active,
    {
        TtsQueueStatus {
            pending: self.pending.len(),
            is_processing: self.is_processing,
            active: self.active,
        }
    }

    /// Adds a task behind all pending ones.
    pub fn enqueue(&mut self, task: TtsTask)
        ensures
            final(self)@ == (TtsQueueView {
                pending: old(self)@.pending.push(task@),
                ..old(self)@
            }),
    {
        proof {
            lemma_views_push(self.pending@, task);
        }
        self.pending.push(task);
    }

    /// Position of the task that is served next.
    fn next_position(&self) -> (r: usize)
        requires
            self.pending.len() > 0,
        ensures
            r as int == next_index(self@.pending, self@.pending.len() as int),
            r < self.pending.len(),
    {
        let mut best: usize = 0;
        let mut n: usize = 1;
        while n < self.pending.len()
            invariant
                1 <= n <= self.pending.len(),
                best < n,
                best as int == next_index(self@.pending, n as int),
            decreases self.pending.len() - n,
        {
            assert(self@.pending[n as int] == self.pending@[n as int]@);
            assert(self@.pending[best as int] == self.pending@[best as int]@);
            if self.pending[n].priority > self.pending[best].priority {
                best = n;
            }
            n += 1;
        }
        best
    }

    /// Takes the task that is served next out of the queue: the first added
    /// among those of the highest priority. `None` where nothing is pending.
    pub fn pop(&mut self) -> (r: Option<TtsTask>)
        ensures
            old(self)@.pending.len() == 0 ==> r is None && final(self)@ == old(self)@,
            old(self)@.pending.len() > 0 ==> {
                let i = next_index(old(self)@.pending, old(self)@.pending.len() as int);
                &&& r is Some
                &&& 0 <= i < old(self)@.pending.len()
                &&& r->0@ == old(self)@.pending[i]
                &&& final(self)@ == (TtsQueueView {
                    pending: old(self)@.pending.remove(i),
                    ..old(self)@
                })
            },
    {
        if self.pending.len() == 0 {
            return None;
        }
        let i = self.next_position();
        let ghost before = views(self.pending@);
        assert(before[i as int] == self.pending@[i as int]@);
        let task = self.pending.remove(i);
        assert(views(self.pending@) =~= before.remove(i as int));
        Some(task)
    }

    /// Removes the pending tasks for the passage `(book_id, cfi_range)` and
    /// says how many there were. The other tasks keep their order.
    pub fn cancel(&mut self, book_id: &str, cfi_range: &str) -> (removed: usize)
        ensures
            final(self)@ == (TtsQueueView {
                pending: without_passage(
                    old(self)@.pending,
                    book_id@,
                    cfi_range@,
                    old(self)@.pending.len() as int,
                ),
                ..old(self)@
            }),
            removed == old(self)@.pending.len() - final(self)@.pending.len(),
            forall|k: int|
                0 <= k < final(self)@.pending.len() ==> !is_for(
                    #[trigger] final(self)@.pending[k],
                    book_id@,
                    cfi_range@,
                ),
    {
        let ghost orig = views(self.pending@);
        let mut kept: Vec<TtsTask> = Vec::new();
        let mut rest: Vec<TtsTask> = Vec::new();
        std::mem::swap(&mut self.pending, &mut rest);
        let total = rest.len();
        let mut removed: usize = 0;
        let mut i: usize = 0;
        assert(views(kept@) =~= Seq::<TtsTaskView>::empty());
        while i < total
            invariant
                i <= total,
                total == orig.len(),
                views(rest@) == orig.subrange(i as int, total as int),
                rest@.len() == total - i,
                views(kept@) == without_passage(orig, book_id@, cfi_range@, i as int),
                removed + kept@.len() == i,
                forall|k: int|
                    0 <= k < kept@.len() ==> !is_for(
                        #[trigger] views(kept@)[k],
                        book_id@,
                        cfi_range@,
                    ),
            decreases total - i,
        {
            let ghost rv = views(rest@);
            assert(rv[0] == rest@[0]@);
            let t = rest.remove(0);
            assert(views(rest@) =~= rv.remove(0));
            assert(rv.remove(0) =~= orig.subrange(i + 1, total as int));
            assert(t@ == orig[i as int]);
            if str_eq(t.book_id.as_str(), book_id) && str_eq(t.cfi_range.as_str(), cfi_range) {
                removed += 1;
            } else {
                proof {
                    lemma_views_push(kept@, t);
                }
                kept.push(t);
            }
            i += 1;
        }
        self.pending = kept;
        removed
    }

    /// Removes all pending tasks of the book `book_id` and says how many
    /// there were.
    pub fn cancel_all(&mut self, book_id: &str) -> (removed: usize)
        ensures
            final(self)@ == (TtsQueueView {
                pending: without_book(
                    old(self)@.pending,
                    book_id@,
                    old(self)@.pending.len() as int,
                ),
                ..old(self)@
            }),
            removed == old(self)@.pending.len() - final(self)@.pending.len(),
            forall|k: int|
                0 <= k < final(self)@.pending.len() ==> (#[trigger] final(self)@.pending[k]).book_id
                    != book_id@,
    {
        let ghost orig = views(self.pending@);
        let mut kept: Vec<TtsTask> = Vec::new();
        let mut rest: Vec<TtsTask> = Vec::new();
        std::mem::swap(&mut self.pending, &mut rest);
        let total = rest.len();
        let mut removed: usize = 0;
        let mut i: usize = 0;
        assert(views(kept@) =~= Seq::<TtsTaskView>::empty());
        while i < total
            invariant
                i <= total,
                total == orig.len(),
                views(rest@) == orig.subrange(i as int, total as int),
                rest@.len() == total - i,
                views(kept@) == without_book(orig, book_id@, i as int),
                removed + kept@.len() == i,
                forall|k: int|
                    0 <= k < kept@.len() ==> (#[trigger] views(kept@)[k]).book_id != book_id@,
            decreases total - i,
        {
            let ghost rv = views(rest@);
            assert(rv[0] == rest@[0]@);
            let t = rest.remove(0);
            assert(views(rest@) =~= rv.remove(0));
            assert(rv.remove(0) =~= orig.subrange(i + 1, total as int));
            assert(t@ == orig[i as int]);
            if str_eq(t.book_id.as_str(), book_id) {
                removed += 1;
            } else {
                proof {
                    lemma_views_push(kept@, t);
                }
                kept.push(t);
            }
            i += 1;
        }
        self.pending = kept;
        removed
    }

    /// The worker's step when it looks for work: where a task is pending it
    /// takes the next one and is processing with one more task active;
    /// where none is, it is idle.
    pub fn begin_next(&mut self) -> (r: Option<TtsTask>)
        ensures
            old(self)@.pending.len() == 0 ==> r is None && final(self)@ == (TtsQueueView {
                is_processing: false,
                ..old(self)@
            }),
            old(self)@.pending.len() > 0 ==> {
                let i = next_index(old(self)@.pending, old(self)@.pending.len() as int);
                &&& r is Some
                &&& 0 <= i < old(self)@.pending.len()
                &&& r->0@ == old(self)@.pending[i]
                &&& final(self)@ == (TtsQueueView {
                    pending: old(self)@.pending.remove(i),
                    is_processing: true,
                    active: if old(self)@.active < usize::MAX {
                        (old(self)@.active + 1) as usize
                    } else {
                        old(self)@.active
                    },
                })
            },
    {
        match self.pop() {
            Some(t) => {
                self.is_processing = true;
                if self.active < usize::MAX {
                    self.active += 1;
                }
                Some(t)
            },
            None => {
                self.is_processing = false;
                None
            },
        }
    }

    /// The worker's step when a task is done: one task fewer is active.
    pub fn finish(&mut self)
        ensures
            final(self)@ == (TtsQueueView {
                active: if old(self)@.active > 0 {
                    (old(self)@.active - 1) as usize
                } else {
                    0
                },
                ..old(self)@
            }),
    {
        if self.active > 0 {
            self.active -= 1;
        }
    }
}

/// Every task that is served was pending.
pub proof fn lemma_served_were_pending(pending: Seq<TtsTaskView>, k: int)
    requires
        0 <= k < service_order(pending).len(),
    ensures
        exists|j: int| 0 <= j < pending.len() && pending[j] == service_order(pending)[k],
    decreases pending.len(),
{
    if pending.len() > 0 {
        lemma_next_index(pending, pending.len() as int);
        let i = next_index(pending, pending.len() as int);
        if k == 0 {
            assert(pending[i] == service_order(pending)[0]);
        } else {
            let rest = pending.remove(i);
            assert(service_order(pending)[k] == service_order(rest)[k - 1]);
            lemma_served_were_pending(rest, k - 1);
            let j = choose|j: int| 0 <= j < rest.len() && rest[j] == service_order(rest)[k - 1];
            if j < i {
                assert(pending[j] == rest[j]);
            } else {
                assert(pending[j + 1] == rest[j]);
            }
        }
    }
}

/// After the tasks of a passage are cancelled, no task that the queue
/// serves is for that passage, until one is added again.
pub proof fn lemma_cancelled_never_served(
    pending: Seq<TtsTaskView>,
    book: Seq<char>,
    cfi: Seq<char>,
    k: int,
)
    requires
        0 <= k < service_order(
            without_passage(pending, book, cfi, pending.len() as int),
        ).len(),
    ensures
        !is_for(
            service_order(without_passage(pending, book, cfi, pending.len() as int))[k],
            book,
            cfi,
        ),
{
    let left = without_passage(pending, book, cfi, pending.len() as int);
    lemma_without_passage(pending, book, cfi, pending.len() as int);
    lemma_served_were_pending(left, k);
}

/// What is left after cancelling holds no task of the passage.
pub proof fn lemma_without_passage(pending: Seq<TtsTaskView>, book: Seq<char>, cfi: Seq<char>, n: int)
    requires
        0 <= n <= pending.len(),
    ensures
        forall|j: int|
            0 <= j < without_passage(pending, book, cfi, n).len() ==> !is_for(
                #[trigger] without_passage(pending, book, cfi, n)[j],
                book,
                cfi,
            ),
        without_passage(pending, book, cfi, n).len() <= n,
    decreases n,
{
    if n > 0 {
        lemma_without_passage(pending, book, cfi, n - 1);
    }
}

/// The tasks are served by descending priority.
pub proof fn lemma_service_order_descends(pending: Seq<TtsTaskView>, a: int, b: int)
    requires
        0 <= a < b < service_order(pending).len(),
    ensures
        service_order(pending)[a].priority >= service_order(pending)[b].priority,
    decreases pending.len(),
{
    if pending.len() > 0 {
        lemma_next_index(pending, pending.len() as int);
        let i = next_index(pending, pending.len() as int);
        let rest = pending.remove(i);
        if a == 0 {
            assert(service_order(pending)[b] == service_order(rest)[b - 1]);
            lemma_served_were_pending(rest, b - 1);
            let j = choose|j: int| 0 <= j < rest.len() && rest[j] == service_order(rest)[b - 1];
            if j < i {
                assert(pending[j] == rest[j]);
            } else {
                assert(pending[j + 1] == rest[j]);
            }
        } else {
            assert(service_order(pending)[a] == service_order(rest)[a - 1]);
            assert(service_order(pending)[b] == service_order(rest)[b - 1]);
            lemma_service_order_descends(rest, a - 1, b - 1);
        }
    }
}

} // verus!

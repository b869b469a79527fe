//! Types and helpers of prefill/decode routing: the errors a router
//! reports, worker URLs, and the metadata that lets a decode worker pick up
//! what a prefill worker hands off.

use crate::random::random_u64;
use crate::text::chars_of;
use crate::text::find_from;
use crate::text::first_char;
use crate::text::joined;
use crate::text::lemma_offset_of;
use crate::text::offset_of;
use crate::text::skip_repeated;
use crate::text::strip_repeated;
use crate::worker::BasicWorker;
use vstd::prelude::*;

verus! {

/// What can go wrong in a router.
#[derive(Debug)]
pub enum PDRouterError {
    WorkerAlreadyExists { url: String },
    WorkerNotFound { url: String },
    LockError { operation: String },
    HealthCheckFailed { url: String },
    InvalidConfiguration { reason: String },
    NetworkError { message: String },
    Timeout { url: String },
    /// No candidate is left to route to, or only one role of a pair has one.
    NoAvailableWorker,
}

impl PDRouterError {
    /// The error in words.
    pub open spec fn text(&self) -> Seq<char> {
        match self {
            PDRouterError::WorkerAlreadyExists { url } => "Worker already exists: "@ + url@,
            PDRouterError::WorkerNotFound { url } => "Worker not found: "@ + url@,
            PDRouterError::LockError { operation } => "Lock acquisition failed: "@ + operation@,
            PDRouterError::HealthCheckFailed { url } => "Health check failed for worker: "@ + url@,
            PDRouterError::InvalidConfiguration { reason } => "Invalid worker configuration: "@
                + reason@,
            PDRouterError::NetworkError { message } => "Network error: "@ + message@,
            PDRouterError::Timeout { url } => "Timeout waiting for worker: "@ + url@,
            PDRouterError::NoAvailableWorker => "No available worker"@,
        }
    }

    /// The error in words.
    pub fn message(&self) -> (text: String)
        ensures
            text@ == self.text(),
    {
        match self {
            PDRouterError::WorkerAlreadyExists { url } => joined(
                "Worker already exists: ",
                url.as_str(),
            ),
            PDRouterError::WorkerNotFound { url } => joined("Worker not found: ", url.as_str()),
            PDRouterError::LockError { operation } => joined(
                "Lock acquisition failed: ",
                operation.as_str(),
            ),
            PDRouterError::HealthCheckFailed { url } => joined(
                "Health check failed for worker: ",
                url.as_str(),
            ),
            PDRouterError::InvalidConfiguration { reason } => joined(
                "Invalid worker configuration: ",
                reason.as_str(),
            ),
            PDRouterError::NetworkError { message } => joined("Network error: ", message.as_str()),
            PDRouterError::Timeout { url } => joined("Timeout waiting for worker: ", url.as_str()),
            PDRouterError::NoAvailableWorker => String::from_str("No available worker"),
        }
    }
}

/// The texts of a list of messages.
pub open spec fn texts(messages: Seq<String>) -> Seq<Seq<char>> {
    messages.map_values(|m: String| m@)
}

/// The messages of a chain of errors as one line: outermost first, each
/// cause introduced by `" caused by: "`.
pub open spec fn chain_text(messages: Seq<Seq<char>>) -> Seq<char>
    decreases messages.len(),
{
    if messages.len() == 0 {
        Seq::empty()
    } else if messages.len() == 1 {
        messages[0]
    } else {
        chain_text(messages.drop_last()) + " caused by: "@ + messages.last()
    }
}

/// Formats a chain of errors for diagnostics. `messages` holds the message
/// of the outermost error first, then that of each cause in turn.
pub fn error_chain(messages: &Vec<String>) -> (line: String)
    ensures
        line@ == chain_text(texts(messages@)),
{
    let mut line = String::new();
    let mut i: usize = 0;
    while i < messages.len()
        invariant
            i <= messages.len(),
            line@ == chain_text(texts(messages@).take(i as int)),
        decreases messages.len() - i,
    {
        proof {
            assert(texts(messages@).take(i + 1).drop_last() == texts(messages@).take(i as int));
        }
        if i > 0 {
            line.append(" caused by: ");
        }
        line.append(messages[i].as_str());
        i += 1;
    }
    proof {
        assert(texts(messages@).take(i as int) == texts(messages@));
    }
    line
}

/// `url` followed by `path`, with exactly one `/` supplied between them
/// when `path` does not bring its own.
pub open spec fn api_path_of(url: Seq<char>, path: Seq<char>) -> Seq<char> {
    if path.len() > 0 && path[0] == '/' {
        url + path
    } else {
        url + seq!['/'] + path
    }
}

/// The address of the endpoint `path` on the worker at `url`.
pub fn api_path(url: &str, path: &str) -> (full: String)
    ensures
        full@ == api_path_of(url@, path@),
{
    let mut full = String::from_str(url);
    match first_char(path) {
        Some('/') => {},
        _ => {
            proof {
                reveal_strlit("/");
                assert("/"@ == seq!['/']);
            }
            full.append("/");
        },
    }
    full.append(path);
    full
}

/// The host of a worker URL: what follows every leading `http://` and then
/// every leading `https://`, up to the first `:`.
pub open spec fn hostname(url: Seq<char>) -> Seq<char> {
    let rest = strip_repeated(strip_repeated(url, "http://"@), "https://"@);
    rest.take(offset_of(rest, ':') as int)
}

/// A host holds no colon.
pub proof fn law_hostname_has_no_colon(url: Seq<char>, k: int)
    requires
        0 <= k < hostname(url).len(),
    ensures
        hostname(url)[k] != ':',
{
    let rest = strip_repeated(strip_repeated(url, "http://"@), "https://"@);
    lemma_offset_of(rest, ':');
}

/// The host of a worker URL, without scheme and port.
pub fn get_hostname(url: &str) -> (host: String)
    ensures
        host@ == hostname(url@),
{
    let text = chars_of(url);
    let http = chars_of("http://");
    let https = chars_of("https://");
    proof {
        assert(text@.skip(0) == text@);
    }
    let after_http = skip_repeated(&text, 0, &http);
    let start = skip_repeated(&text, after_http, &https);
    let end = find_from(&text, start, ':');
    proof {
        assert(text@.skip(start as int).take(end - start) == url@.subrange(
            start as int,
            end as int,
        ));
    }
    String::from_str(url.substring_char(start, end))
}

/// The largest room identifier: 63 bits, all set.
pub const MAX_ROOM_ID: u64 = 0x7fff_ffff_ffff_ffff;

/// The room identifier made from the random number `raw`: its low 63 bits.
pub fn room_id_from(raw: u64) -> (id: u64)
    ensures
        id == raw & MAX_ROOM_ID,
        id <= MAX_ROOM_ID,
{
    let id = raw & MAX_ROOM_ID;
    proof {
        assert(raw & 0x7fff_ffff_ffff_ffff <= 0x7fff_ffff_ffff_ffff) by (bit_vector);
    }
    id
}

/// A fresh room identifier: random, non-negative, at most 63 bits wide.
pub fn generate_room_id() -> (id: u64)
    ensures
        id <= MAX_ROOM_ID,
{
    room_id_from(random_u64())
}

/// A request together with what the decode worker needs to take over from
/// the prefill worker. The request itself is borrowed, never changed.
pub struct RequestWithBootstrap<'a, T> {
    pub original: &'a T,
    pub bootstrap_host: String,
    pub bootstrap_port: Option<u16>,
    pub bootstrap_room: u64,
}

impl<'a, T> RequestWithBootstrap<'a, T> {
    /// Whether this is `original` wrapped for the pair `prefill`, `decode`
    /// with room `room`: the host is that of the decode worker's URL, the
    /// port the one the prefill worker offers.
    pub open spec fn wraps(
        &self,
        original: &T,
        prefill: &BasicWorker,
        decode: &BasicWorker,
        room: u64,
    ) -> bool {
        &&& self.original == original
        &&& self.bootstrap_host@ == hostname(decode@.url)
        &&& self.bootstrap_port == prefill@.worker_type.port()
        &&& self.bootstrap_room == room
    }

    /// Wraps `original` for the pair `prefill`, `decode` with room `room`.
    pub fn with_room(
        original: &'a T,
        prefill: &BasicWorker,
        decode: &BasicWorker,
        room: u64,
    ) -> (wrapped: Self)
        ensures
            wrapped.wraps(original, prefill, decode, room),
    {
        RequestWithBootstrap {
            original,
            bootstrap_host: get_hostname(decode.url()),
            bootstrap_port: prefill.worker_type().bootstrap_port(),
            bootstrap_room: room,
        }
    }

    /// Wraps `original` for the pair `prefill`, `decode` with a fresh room.
    pub fn new(original: &'a T, prefill: &BasicWorker, decode: &BasicWorker) -> (wrapped: Self)
        ensures
            wrapped.wraps(original, prefill, decode, wrapped.bootstrap_room),
            wrapped.bootstrap_room <= MAX_ROOM_ID,
    {
        Self::with_room(original, prefill, decode, generate_room_id())
    }
}

/// A batch request together with the handoff metadata of each of its items,
/// as three lists in the order of the items.
pub struct BatchRequestWithBootstrap<'a, T> {
    pub original: &'a T,
    pub bootstrap_host: Vec<String>,
    pub bootstrap_port: Vec<Option<u16>>,
    pub bootstrap_room: Vec<u64>,
}

impl<'a, T> BatchRequestWithBootstrap<'a, T> {
    /// Whether this is `original` wrapped for the pair `prefill`, `decode`
    /// with one entry per room of `rooms`: the three lists are as long as
    /// `rooms`, every host is that of the decode worker's URL, every port the
    /// one the prefill worker offers, and item `i` has room `rooms[i]`.
    pub open spec fn wraps(
        &self,
        original: &T,
        prefill: &BasicWorker,
        decode: &BasicWorker,
        rooms: Seq<u64>,
    ) -> bool {
        &&& self.original == original
        &&& self.bootstrap_host@.len() == rooms.len()
        &&& self.bootstrap_port@.len() == rooms.len()
        &&& self.bootstrap_room@ == rooms
        &&& forall|i: int|
            0 <= i < rooms.len() ==> (#[trigger] self.bootstrap_host@[i])@ == hostname(
                decode@.url,
            )
        &&& forall|i: int|
            0 <= i < rooms.len() ==> #[trigger] self.bootstrap_port@[i]
                == prefill@.worker_type.port()
    }

    /// Wraps `original` for the pair `prefill`, `decode`, one item per room
    /// of `rooms`.
    pub fn with_rooms(
        original: &'a T,
        prefill: &BasicWorker,
        decode: &BasicWorker,
        rooms: Vec<u64>,
    ) -> (wrapped: Self)
        ensures
            wrapped.wraps(original, prefill, decode, rooms@),
    {
        let port = prefill.worker_type().bootstrap_port();
        let mut hosts: Vec<String> = Vec::new();
        let mut ports: Vec<Option<u16>> = Vec::new();
        let mut i: usize = 0;
        while i < rooms.len()
            invariant
                i <= rooms.len(),
                hosts@.len() == i,
                ports@.len() == i,
                port == prefill@.worker_type.port(),
                forall|k: int| 0 <= k < i ==> (#[trigger] hosts@[k])@ == hostname(decode@.url),
                forall|k: int| 0 <= k < i ==> #[trigger] ports@[k] == port,
            decreases rooms.len() - i,
        {
            hosts.push(get_hostname(decode.url()));
            ports.push(port);
            i += 1;
        }
        BatchRequestWithBootstrap {
            original,
            bootstrap_host: hosts,
            bootstrap_port: ports,
            bootstrap_room: rooms,
        }
    }

    /// Wraps `original` for the pair `prefill`, `decode`, with a fresh room
    /// for each of its `batch_size` items.
    pub fn new(
        original: &'a T,
        prefill: &BasicWorker,
        decode: &BasicWorker,
        batch_size: usize,
    ) -> (wrapped: Self)
        ensures
            wrapped.wraps(original, prefill, decode, wrapped.bootstrap_room@),
            wrapped.bootstrap_room@.len() == batch_size,
            forall|i: int|
                0 <= i < batch_size ==> #[trigger] wrapped.bootstrap_room@[i] <= MAX_ROOM_ID,
    {
        let mut rooms: Vec<u64> = Vec::new();
        let mut i: usize = 0;
        while i < batch_size
            invariant
                i <= batch_size,
                rooms@.len() == i,
                forall|k: int| 0 <= k < i ==> #[trigger] rooms@[k] <= MAX_ROOM_ID,
            decreases batch_size - i,
        {
            rooms.push(generate_room_id());
            i += 1;
        }
        Self::with_rooms(original, prefill, decode, rooms)
    }
}

} // verus!

//! HTTP operation registry: slot table, write-once result cells, response
//! normalization and lazy expiry of unread results.

use vstd::prelude::*;

use slab::Slab;

verus! {

/// One cookie key/value pair, as delivered by a response or supplied for a
/// WebSocket handshake.
#[derive(Clone)]
pub struct Pair {
    pub key: String,
    pub value: String,
}

/// Mathematical model of a [`Pair`].
pub struct PairView {
    pub key: Seq<char>,
    pub value: Seq<char>,
}

impl View for Pair {
    type V = PairView;

    open spec fn view(&self) -> PairView {
        PairView { key: self.key@, value: self.value@ }
    }
}

/// Protocol version of a completed response, held as plain data; the
/// transport library's own version type is converted to this at the edge.
#[derive(Clone, Copy, PartialEq, Eq, Structural)]
pub enum HttpVersion {
    Http09,
    Http10,
    Http11,
    Http2,
    Http3,
    Other,
}

/// The integer code under which the host receives each protocol version.
pub open spec fn version_code(v: HttpVersion) -> int {
    match v {
        HttpVersion::Http09 => 9,
        HttpVersion::Http10 => 10,
        HttpVersion::Http11 => 11,
        HttpVersion::Http2 => 20,
        HttpVersion::Http3 => 30,
        HttpVersion::Other => 1,
    }
}

/// Payload of a successfully resolved operation: status, body bytes,
/// protocol version and response cookies.
#[derive(Clone)]
pub struct ResponseData {
    pub status: u16,
    pub data: Vec<u8>,
    pub version: HttpVersion,
    pub cookies: Vec<Pair>,
}

/// Mathematical model of [`ResponseData`].
pub struct ResponseDataView {
    pub status: u16,
    pub data: Seq<u8>,
    pub version: HttpVersion,
    pub cookies: Seq<PairView>,
}

impl View for ResponseData {
    type V = ResponseDataView;

    open spec fn view(&self) -> ResponseDataView {
        ResponseDataView {
            status: self.status,
            data: self.data@,
            version: self.version,
            cookies: self.cookies@.map_values(|p: Pair| p@),
        }
    }
}

/// What an operation resolved to: a normalized response, or a transport
/// failure described by a message.
#[derive(Clone)]
pub enum RespResultType {
    Data(ResponseData),
    Error(String),
}

/// Mathematical model of [`RespResultType`].
pub enum RespKindView {
    Data(ResponseDataView),
    Error(Seq<char>),
}

impl View for RespResultType {
    type V = RespKindView;

    open spec fn view(&self) -> RespKindView {
        match self {
            RespResultType::Data(d) => RespKindView::Data(d@),
            RespResultType::Error(e) => RespKindView::Error(e@),
        }
    }
}

/// A resolved operation outcome together with the time (milliseconds on the
/// host's clock) at which it was written; the timestamp drives lazy expiry.
#[derive(Clone)]
pub struct RespResult {
    pub resp: RespResultType,
    pub create_time: u64,
}

/// Mathematical model of [`RespResult`].
pub struct RespResultView {
    pub resp: RespKindView,
    pub create_time: u64,
}

impl View for RespResult {
    type V = RespResultView;

    open spec fn view(&self) -> RespResultView {
        RespResultView { resp: self.resp@, create_time: self.create_time }
    }
}

/// Write-once container for one operation's outcome: starts pending, is
/// resolved at most once, and never changes thereafter.
#[derive(Clone)]
pub struct ResultCell {
    value: Option<RespResult>,
}

/// Mathematical model of a [`ResultCell`]: either still pending or resolved.
pub enum CellView {
    Pending,
    Done(RespResultView),
}

impl View for ResultCell {
    type V = CellView;

    closed spec fn view(&self) -> CellView {
        match self.value {
            Option::None => CellView::Pending,
            Option::Some(r) => CellView::Done(r@),
        }
    }
}

/// State code the host polls: pending.
pub const STATE_PENDING: i32 = 0;

/// State code the host polls: resolved to a response.
pub const STATE_SUCCEEDED: i32 = 1;

/// State code the host polls: resolved to a failure.
pub const STATE_FAILED: i32 = -1;

/// State code the host polls: the handle is unknown or was removed.
pub const STATE_NOT_FOUND: i32 = -2;

/// The state code of a single cell (a found slot is never `STATE_NOT_FOUND`).
pub open spec fn cell_state(c: CellView) -> i32 {
    match c {
        CellView::Pending => STATE_PENDING,
        CellView::Done(r) => match r.resp {
            RespKindView::Data(_) => STATE_SUCCEEDED,
            RespKindView::Error(_) => STATE_FAILED,
        },
    }
}

impl ResultCell {
    /// A fresh, pending cell.
    pub fn new() -> (c: ResultCell)
        ensures
            c@ == CellView::Pending,
    {
        ResultCell { value: Option::None }
    }

    /// Resolve the cell. The first write wins; once resolved, every further
    /// write is a no-op, so an observed outcome never changes.
    pub fn set(&mut self, r: RespResult) -> (did: bool)
        ensures
            did == (old(self)@ is Pending),
            did ==> final(self)@ == CellView::Done(r@),
            !did ==> final(self)@ == old(self)@,
    {
        match &self.value {
            Option::None => {
                self.value = Option::Some(r);
                true
            },
            Option::Some(_) => false,
        }
    }

    /// The state code of this cell.
    pub fn state(&self) -> (s: i32)
        ensures
            s == cell_state(self@),
    {
        match &self.value {
            Option::None => STATE_PENDING,
            Option::Some(r) => match &r.resp {
                RespResultType::Data(_) => STATE_SUCCEEDED,
                RespResultType::Error(_) => STATE_FAILED,
            },
        }
    }
}

/// The buffer, status and version code under which the host receives one
/// resolved response; the body bytes are an independent copy whose ownership
/// passes to the host.
pub struct RequestResponse {
    pub data: Vec<u8>,
    pub status: u32,
    pub version: i32,
}

impl RequestResponse {
    /// Package a resolved response for the host: copy of the body, widened
    /// status, and the integer protocol version code.
    pub fn from(data: &ResponseData) -> (r: RequestResponse)
        ensures
            r.data@ == data.data@,
            r.status == data.status,
            r.version == version_code(data.version),
    {
        let buffer = vstd::slice::slice_to_vec(data.data.as_slice());
        let version: i32 = match data.version {
            HttpVersion::Http09 => 9,
            HttpVersion::Http10 => 10,
            HttpVersion::Http11 => 11,
            HttpVersion::Http2 => 20,
            HttpVersion::Http3 => 30,
            HttpVersion::Other => 1,
        };
        RequestResponse { data: buffer, status: data.status as u32, version }
    }
}

/// What the embedding program observed when it tried to read a response
/// body, after being told by [`should_read_body`] whether to read at all.
pub enum BodyRead {
    /// The body was not consumed (non-success status short-circuits).
    NotRead,
    /// The body was consumed whole.
    Bytes(Vec<u8>),
    /// Consuming the body failed mid-stream.
    Failed(String),
}

/// What the embedding program observed from the transport for one operation:
/// either response metadata (with the body read attempt), or a transport
/// failure (DNS, TLS, connection, protocol) described by a message.
pub enum HttpEvent {
    Response { status: u16, version: HttpVersion, cookies: Vec<Pair>, body: BodyRead },
    TransportError(String),
}

/// Whether a status is a success status, after which the body is consumed.
pub open spec fn is_success(status: u16) -> bool {
    200 <= status < 300
}

/// A success status asks for the body; any other status short-circuits and
/// the body is left unread.
pub fn should_read_body(status: u16) -> (r: bool)
    ensures
        r == is_success(status),
{
    200 <= status && status < 300
}

/// The normalized result kind for one observed transport event:
/// - a transport failure resolves to a failure carrying its message;
/// - a success status resolves to its body, or to a failure if reading the
///   body failed;
/// - any other status resolves to a response with an empty body — only
///   status, version and cookies are preserved.
pub open spec fn normalized_kind(event: HttpEvent) -> RespKindView {
    match event {
        HttpEvent::TransportError(m) => RespKindView::Error(m@),
        HttpEvent::Response { status, version, cookies, body } => {
            let cookies_v = cookies@.map_values(|p: Pair| p@);
            if is_success(status) {
                match body {
                    BodyRead::Bytes(b) => RespKindView::Data(
                        ResponseDataView { status, data: b@, version, cookies: cookies_v },
                    ),
                    BodyRead::Failed(m) => RespKindView::Error(m@),
                    BodyRead::NotRead => RespKindView::Data(
                        ResponseDataView {
                            status,
                            data: Seq::<u8>::empty(),
                            version,
                            cookies: cookies_v,
                        },
                    ),
                }
            } else {
                RespKindView::Data(
                    ResponseDataView {
                        status,
                        data: Seq::<u8>::empty(),
                        version,
                        cookies: cookies_v,
                    },
                )
            }
        },
    }
}

/// The normalized result for one observed transport event, stamped with the
/// time of its resolution.
pub open spec fn normalized(event: HttpEvent, now_ms: u64) -> RespResultView {
    RespResultView { resp: normalized_kind(event), create_time: now_ms }
}

/// Normalize one observed transport outcome into the registry's result
/// shape, stamped with the current time; see [`normalized_kind`] for the
/// rules.
pub fn normalize_response(event: HttpEvent, now_ms: u64) -> (r: RespResult)
    ensures
        r@ == normalized(event, now_ms),
{
    let resp = match event {
        HttpEvent::TransportError(m) => RespResultType::Error(m),
        HttpEvent::Response { status, version, cookies, body } => {
            if should_read_body(status) {
                match body {
                    BodyRead::Bytes(b) => RespResultType::Data(ResponseData {
                        status,
                        data: b,
                        version,
                        cookies,
                    }),
                    BodyRead::Failed(m) => RespResultType::Error(m),
                    BodyRead::NotRead => RespResultType::Data(ResponseData {
                        status,
                        data: Vec::new(),
                        version,
                        cookies,
                    }),
                }
            } else {
                RespResultType::Data(ResponseData {
                    status,
                    data: Vec::new(),
                    version,
                    cookies,
                })
            }
        },
    };
    RespResult { resp, create_time: now_ms }
}

/// Retention window for resolved, unread results (milliseconds): a result
/// that has sat longer than this is dropped by the next sweep.
pub const RETENTION_MS: u64 = 20000;

/// Minimum interval between two expiry sweeps (milliseconds).
pub const SWEEP_INTERVAL_MS: u64 = 10000;

/// Whether a cell survives a sweep at `now_ms`: pending cells always do; a
/// resolved cell survives while its result is younger than the retention
/// window.
pub open spec fn cell_fresh(c: CellView, now_ms: u64) -> bool {
    match c {
        CellView::Pending => true,
        CellView::Done(r) => now_ms - r.create_time < RETENTION_MS,
    }
}

/// The freshness test a sweep applies to one cell.
fn cell_is_fresh(c: &ResultCell, now_ms: u64) -> (r: bool)
    ensures
        r == cell_fresh(c@, now_ms),
{
    match &c.value {
        Option::None => true,
        Option::Some(res) => now_ms <= res.create_time || now_ms - res.create_time
            < RETENTION_MS,
    }
}

#[verifier::external_type_specification]
#[verifier::external_body]
#[verifier::reject_recursive_types(T)]
pub struct ExSlab<T>(Slab<T>);

/// The entries a slot table currently holds, keyed by slot index.
pub uninterp spec fn slab_entries(s: Slab<ResultCell>) -> Map<int, ResultCell>;

/// Relies on slab::Slab::new: a fresh table holds no entries.
#[verifier::external_body]
fn slab_new() -> (s: Slab<ResultCell>)
    ensures
        slab_entries(s).dom() == Set::<int>::empty(),
{
    Slab::new()
}

/// Relies on slab::Slab::insert: the value is stored under a currently
/// vacant index (a freed index may be reused) and that index is returned.
#[verifier::external_body]
fn slab_insert(s: &mut Slab<ResultCell>, cell: ResultCell) -> (key: usize)
    ensures
        !slab_entries(*old(s)).dom().contains(key as int),
        slab_entries(*final(s)) == slab_entries(*old(s)).insert(key as int, cell),
{
    s.insert(cell)
}

/// Relies on slab::Slab::get: returns a field-by-field copy of the entry
/// under the key, or nothing when the index is vacant.
#[verifier::external_body]
fn slab_get_cloned(s: &Slab<ResultCell>, key: usize) -> (r: Option<ResultCell>)
    ensures
        (r matches Option::Some(c) ==> slab_entries(*s).dom().contains(key as int) && c@
            == slab_entries(*s)[key as int]@),
        (r is None ==> !slab_entries(*s).dom().contains(key as int)),
{
    s.get(key).cloned()
}

/// Relies on slab::Slab::get_mut: stores a new value under an index that
/// is known to be occupied.
#[verifier::external_body]
fn slab_set(s: &mut Slab<ResultCell>, key: usize, cell: ResultCell)
    requires
        slab_entries(*old(s)).dom().contains(key as int),
    ensures
        slab_entries(*final(s)) == slab_entries(*old(s)).insert(key as int, cell),
{
    *s.get_mut(key).expect("occupied index") = cell;
}

/// Relies on slab::Slab::try_remove: removes and returns the entry under the
/// key, freeing the index for reuse; a vacant index is a no-op.
#[verifier::external_body]
fn slab_try_remove(s: &mut Slab<ResultCell>, key: usize) -> (r: Option<ResultCell>)
    ensures
        (r is Some ==> slab_entries(*old(s)).dom().contains(key as int) && slab_entries(
            *final(s),
        ) == slab_entries(*old(s)).remove(key as int)),
        (r is None ==> !slab_entries(*old(s)).dom().contains(key as int) && slab_entries(
            *final(s),
        ) == slab_entries(*old(s))),
{
    s.try_remove(key)
}

/// Relies on slab::Slab::retain: keeps exactly the entries the supplied
/// predicate accepts, under their indices; the predicate passed here is the
/// verified freshness test.
#[verifier::external_body]
fn slab_retain_fresh(s: &mut Slab<ResultCell>, now_ms: u64)
    ensures
        forall|k: int|
            #[trigger] slab_entries(*final(s)).dom().contains(k) <==> (slab_entries(
                *old(s),
            ).dom().contains(k) && cell_fresh(slab_entries(*old(s))[k]@, now_ms)),
        forall|k: int|
            #[trigger] slab_entries(*final(s)).dom().contains(k) ==> slab_entries(*final(s))[k]
                == slab_entries(*old(s))[k],
{
    s.retain(|_, cell| cell_is_fresh(cell, now_ms));
}

/// The cell models a table of entries stands for.
pub open spec fn cells_of(entries: Map<int, ResultCell>) -> Map<int, CellView> {
    entries.map_values(|c: ResultCell| c@)
}

/// The state code the host polls for a handle in a registry model.
pub open spec fn op_state(m: Map<int, CellView>, key: u64) -> i32 {
    if m.dom().contains(key as int) {
        cell_state(m[key as int])
    } else {
        STATE_NOT_FOUND
    }
}

/// The result recorded for a handle in a registry model, if resolved.
pub open spec fn op_result(m: Map<int, CellView>, key: u64) -> Option<RespResultView> {
    if m.dom().contains(key as int) {
        match m[key as int] {
            CellView::Pending => Option::None,
            CellView::Done(r) => Option::Some(r),
        }
    } else {
        Option::None
    }
}

/// Model of resolving a handle: the write lands only on a live, still
/// pending slot; on a removed handle or an already resolved cell it is a
/// no-op, so nothing is ever written into freed or finished state.
pub open spec fn reg_complete(m: Map<int, CellView>, key: u64, r: RespResultView) -> Map<
    int,
    CellView,
> {
    if m.dom().contains(key as int) && m[key as int] is Pending {
        m.insert(key as int, CellView::Done(r))
    } else {
        m
    }
}

/// Model of one expiry pass at `now_ms`: exactly the entries that are no
/// longer fresh drop out; the rest keep their keys and contents.
pub open spec fn reg_sweep(m: Map<int, CellView>, now_ms: u64) -> Map<int, CellView> {
    Map::new(|k: int| m.dom().contains(k) && cell_fresh(m[k], now_ms), |k: int| m[k])
}

/// Whether a sweep is due at `now_ms`, the previous one having run at
/// `last_ms`.
pub open spec fn sweep_due(now_ms: u64, last_ms: u64) -> bool {
    now_ms - last_ms >= SWEEP_INTERVAL_MS
}

/// Model of the maintenance step piggybacked on each submission: a sweep
/// runs only when enabled and due.
pub open spec fn reg_maintain(
    m: Map<int, CellView>,
    now_ms: u64,
    last_ms: u64,
    enabled: bool,
) -> Map<int, CellView> {
    if enabled && sweep_due(now_ms, last_ms) {
        reg_sweep(m, now_ms)
    } else {
        m
    }
}

proof fn lemma_cells_insert(m: Map<int, ResultCell>, k: int, c: ResultCell)
    ensures
        cells_of(m.insert(k, c)) == cells_of(m).insert(k, c@),
{
    assert(cells_of(m.insert(k, c)) =~= cells_of(m).insert(k, c@));
}

proof fn lemma_cells_remove(m: Map<int, ResultCell>, k: int)
    ensures
        cells_of(m.remove(k)) == cells_of(m).remove(k),
{
    assert(cells_of(m.remove(k)) =~= cells_of(m).remove(k));
}

/// The pair models a configuration list stands for.
pub open spec fn pairs_view(s: Seq<Pair>) -> Seq<PairView> {
    s.map_values(|p: Pair| p@)
}

/// The value configured under a key in a header or query-parameter list:
/// the first pair carrying that key, if any. Each list holds at most one
/// pair per key, so this reads like a finite map.
pub open spec fn pair_lookup(s: Seq<PairView>, key: Seq<char>) -> Option<Seq<char>>
    decreases s.len(),
{
    if s.len() == 0 {
        Option::None
    } else if s[0].key == key {
        Option::Some(s[0].value)
    } else {
        pair_lookup(s.drop_first(), key)
    }
}

proof fn lemma_lookup_update_hit(s: Seq<PairView>, i: int, p: PairView)
    requires
        0 <= i < s.len(),
        p.key == s[i].key,
        forall|j: int| 0 <= j < i ==> s[j].key != p.key,
    ensures
        pair_lookup(s.update(i, p), p.key) == Option::Some(p.value),
    decreases i,
{
    if i == 0 {
        assert(s.update(0, p)[0] == p);
    } else {
        assert(s.update(i, p).drop_first() =~= s.drop_first().update(i - 1, p));
        lemma_lookup_update_hit(s.drop_first(), i - 1, p);
    }
}

proof fn lemma_lookup_update_other(s: Seq<PairView>, i: int, p: PairView, k2: Seq<char>)
    requires
        0 <= i < s.len(),
        p.key == s[i].key,
        k2 != p.key,
    ensures
        pair_lookup(s.update(i, p), k2) == pair_lookup(s, k2),
    decreases i,
{
    if i == 0 {
        assert(s.update(0, p).drop_first() =~= s.drop_first());
    } else {
        assert(s.update(i, p).drop_first() =~= s.drop_first().update(i - 1, p));
        lemma_lookup_update_other(s.drop_first(), i - 1, p, k2);
    }
}

proof fn lemma_lookup_push_hit(s: Seq<PairView>, p: PairView)
    requires
        forall|j: int| 0 <= j < s.len() ==> s[j].key != p.key,
    ensures
        pair_lookup(s.push(p), p.key) == Option::Some(p.value),
    decreases s.len(),
{
    if s.len() == 0 {
        assert(s.push(p)[0] == p);
    } else {
        assert(s.push(p).drop_first() =~= s.drop_first().push(p));
        lemma_lookup_push_hit(s.drop_first(), p);
    }
}

proof fn lemma_lookup_push_other(s: Seq<PairView>, p: PairView, k2: Seq<char>)
    requires
        k2 != p.key,
    ensures
        pair_lookup(s.push(p), k2) == pair_lookup(s, k2),
    decreases s.len(),
{
    if s.len() == 0 {
    } else {
        assert(s.push(p).drop_first() =~= s.drop_first().push(p));
        lemma_lookup_push_other(s.drop_first(), p, k2);
    }
}

/// Store `value` under `key` in a configuration list, replacing the pair
/// already carrying that key if there is one.
fn upsert_pair(list: &mut Vec<Pair>, key: String, value: String)
    ensures
        (pair_lookup(pairs_view(final(list)@), key@) matches Option::Some(v) && v
            == value@),
        forall|k2: Seq<char>|
            k2 != key@ ==> #[trigger] pair_lookup(pairs_view(final(list)@), k2)
                == pair_lookup(pairs_view(old(list)@), k2),
{
    let ghost s_old = pairs_view(list@);
    let n = list.len();
    let mut i: usize = 0;
    while i < n
        invariant
            i <= n,
            n == list.len(),
            *list == *old(list),
            s_old == pairs_view(list@),
            forall|j: int| 0 <= j < i ==> s_old[j].key != key@,
        decreases n - i,
    {
        proof {
            assert(s_old[i as int] == list@[i as int]@);
        }
        if list[i].key == key {
            let _ = list.remove(i);
            list.insert(i, Pair { key, value });
            proof {
                let p = (PairView { key: key@, value: value@ });
                assert(list@ =~= old(list)@.update(i as int, list@[i as int]));
                assert(pairs_view(list@) =~= s_old.update(i as int, p));
                lemma_lookup_update_hit(s_old, i as int, p);
                assert forall|k2: Seq<char>| k2 != key@ implies #[trigger] pair_lookup(
                    pairs_view(list@),
                    k2,
                ) == pair_lookup(s_old, k2) by {
                    lemma_lookup_update_other(s_old, i as int, p, k2);
                }
            }
            return ;
        }
        i += 1;
    }
    list.push(Pair { key, value });
    proof {
        let p = (PairView { key: key@, value: value@ });
        assert(pairs_view(list@) =~= s_old.push(p));
        lemma_lookup_push_hit(s_old, p);
        assert forall|k2: Seq<char>| k2 != key@ implies #[trigger] pair_lookup(
            pairs_view(list@),
            k2,
        ) == pair_lookup(s_old, k2) by {
            lemma_lookup_push_other(s_old, p, k2);
        }
    }
}

/// Law: a handle's state only ever moves from pending to succeeded or
/// failed, never the other way, and at most once: completing any handle
/// leaves every already-resolved slot untouched (content included), leaves
/// unknown handles unknown, and moves a pending slot either not at all
/// (some other handle was completed) or to exactly the delivered outcome.
pub proof fn lemma_state_transition_once(
    m: Map<int, CellView>,
    key: u64,
    r: RespResultView,
    h: u64,
)
    ensures
        op_state(m, h) != STATE_PENDING ==> op_state(reg_complete(m, key, r), h) == op_state(
            m,
            h,
        ) && op_result(reg_complete(m, key, r), h) == op_result(m, h),
        op_state(m, h) == STATE_PENDING && h == key ==> op_state(reg_complete(m, key, r), h)
            == cell_state(CellView::Done(r)),
        op_state(m, h) == STATE_PENDING && h != key ==> op_state(reg_complete(m, key, r), h)
            == STATE_PENDING,
{
}

/// Law: reading a result is idempotent — once a handle has resolved, the
/// recorded content stays identical under any further completion and under
/// any fresh insertion, until the handle itself is removed or swept out.
pub proof fn lemma_result_idempotent(
    m: Map<int, CellView>,
    h: u64,
    key: u64,
    r: RespResultView,
    k_new: u64,
)
    requires
        op_result(m, h) is Some,
        !m.dom().contains(k_new as int),
    ensures
        op_result(reg_complete(m, key, r), h) == op_result(m, h),
        op_result(m.insert(k_new as int, CellView::Pending), h) == op_result(m, h),
{
}

/// Law: after removal a handle polls as not found, and stays not found
/// under any completion and any sweep — only a new submission can reissue
/// the freed slot index, and that is a new handle identity.
pub proof fn lemma_removed_stays_not_found(
    m: Map<int, CellView>,
    h: u64,
    key: u64,
    r: RespResultView,
    now_ms: u64,
)
    ensures
        op_state(m.remove(h as int), h) == STATE_NOT_FOUND,
        op_state(reg_complete(m.remove(h as int), key, r), h) == STATE_NOT_FOUND,
        op_state(reg_sweep(m.remove(h as int), now_ms), h) == STATE_NOT_FOUND,
{
}

/// Law: a freshly issued handle is distinct from every handle that is
/// still live, so N submissions yield N distinct live handles, and reuse
/// of freed slot indices can never collide with a live one.
pub proof fn lemma_fresh_handle_no_collision(m: Map<int, CellView>, k_new: u64, h: u64)
    requires
        !m.dom().contains(k_new as int),
        op_state(m, h) != STATE_NOT_FOUND,
    ensures
        k_new != h,
{
}

/// Law: retention — a sweep keeps every pending slot and every resolved
/// result younger than the retention window (content identical), drops
/// exactly the resolved results that have sat at least that long, and the
/// piggybacked maintenance step sweeps only when it is enabled and the
/// sweep interval has passed since the previous sweep.
pub proof fn lemma_retention(
    m: Map<int, CellView>,
    h: u64,
    now_ms: u64,
    last_ms: u64,
    enabled: bool,
)
    ensures
        op_state(m, h) == STATE_PENDING ==> op_state(reg_sweep(m, now_ms), h)
            == STATE_PENDING,
        (op_result(m, h) matches Option::Some(res) && now_ms - res.create_time
            < RETENTION_MS) ==> op_result(reg_sweep(m, now_ms), h) == op_result(m, h)
            && op_state(reg_sweep(m, now_ms), h) == op_state(m, h),
        (op_result(m, h) matches Option::Some(res) && now_ms - res.create_time
            >= RETENTION_MS) ==> op_state(reg_sweep(m, now_ms), h) == STATE_NOT_FOUND,
        !(enabled && sweep_due(now_ms, last_ms)) ==> reg_maintain(m, now_ms, last_ms, enabled)
            == m,
        (enabled && sweep_due(now_ms, last_ms)) ==> reg_maintain(m, now_ms, last_ms, enabled)
            == reg_sweep(m, now_ms),
{
}

/// Law: a resolved state never reverses — once a handle polls succeeded or
/// failed, no completion changes its state or content, and a sweep either
/// leaves both untouched (while the result is within the retention window)
/// or drops the slot to not-found; the state never returns to pending and
/// never flips to the other resolved value.
pub proof fn lemma_resolved_state_stable(
    m: Map<int, CellView>,
    h: u64,
    key: u64,
    r: RespResultView,
    now_ms: u64,
)
    requires
        op_state(m, h) == STATE_SUCCEEDED || op_state(m, h) == STATE_FAILED,
    ensures
        op_state(reg_complete(m, key, r), h) == op_state(m, h),
        op_result(reg_complete(m, key, r), h) == op_result(m, h),
        op_state(reg_sweep(m, now_ms), h) == op_state(m, h) || op_state(
            reg_sweep(m, now_ms),
            h,
        ) == STATE_NOT_FOUND,
        op_state(reg_sweep(m, now_ms), h) == op_state(m, h) ==> op_result(
            reg_sweep(m, now_ms),
            h,
        ) == op_result(m, h),
{
}

/// Law: a submission's piggybacked sweep evicts a stale result — when the
/// sweep is enabled and due, and a handle's resolved result has sat at
/// least the retention window, that handle polls as not found once the
/// maintenance step and the fresh insertion have run. The one excluded
/// input is a fresh handle equal to the stale one: the insertion may reuse
/// the just-freed slot index, and that index then polls as the new, pending
/// handle identity.
pub proof fn lemma_submission_evicts_stale(
    m: Map<int, CellView>,
    now_ms: u64,
    last_ms: u64,
    k_new: u64,
    h: u64,
)
    requires
        sweep_due(now_ms, last_ms),
        (op_result(m, h) matches Option::Some(res) && now_ms - res.create_time
            >= RETENTION_MS),
        k_new != h,
    ensures
        op_state(
            reg_maintain(m, now_ms, last_ms, true).insert(k_new as int, CellView::Pending),
            h,
        ) == STATE_NOT_FOUND,
{
}

/// Law: no write into freed state — completing a handle that is not live
/// (never issued, or already removed) leaves the registry exactly as it
/// was; the task's late result vanishes without touching anything.
pub proof fn lemma_no_write_after_free(m: Map<int, CellView>, key: u64, r: RespResultView)
    requires
        !m.dom().contains(key as int),
    ensures
        reg_complete(m, key, r) == m,
{
}

/// The client context: the operation registry (a slot table of write-once
/// result cells) together with the header/query configuration and the sweep
/// clock. The transport client itself lives with the embedding program,
/// which reports each operation's outcome through [`handle_response`](ClientContext::handle_response).
pub struct ClientContext {
    items: Slab<ResultCell>,
    headers: Vec<Pair>,
    params: Vec<Pair>,
    last_clear_time: u64,
    clear_expires_enabled: bool,
}

impl ClientContext {
    /// The registry's contents: a map from live handle to cell model.
    pub closed spec fn cells(self) -> Map<int, CellView> {
        cells_of(slab_entries(self.items))
    }

    /// The configured extra request headers, in insertion order.
    pub closed spec fn headers_view(self) -> Seq<PairView> {
        pairs_view(self.headers@)
    }

    /// The configured extra query parameters, in insertion order.
    pub closed spec fn params_view(self) -> Seq<PairView> {
        pairs_view(self.params@)
    }

    /// When the previous expiry sweep ran (milliseconds).
    pub closed spec fn last_sweep(self) -> u64 {
        self.last_clear_time
    }

    /// Whether the piggybacked expiry sweep is enabled.
    pub closed spec fn sweep_enabled(self) -> bool {
        self.clear_expires_enabled
    }

    /// Validity: every live handle fits a slot index.
    pub open spec fn wf(self) -> bool {
        forall|k: int| #[trigger] self.cells().dom().contains(k) ==> 0 <= k <= usize::MAX
    }

    /// A fresh client context: empty registry and configuration, expiry
    /// enabled, the sweep clock set to the current time.
    pub fn new(now_ms: u64) -> (c: ClientContext)
        ensures
            c.wf(),
            c.cells().dom() == Set::<int>::empty(),
            c.headers_view() == Seq::<PairView>::empty(),
            c.params_view() == Seq::<PairView>::empty(),
            c.last_sweep() == now_ms,
            c.sweep_enabled(),
    {
        let c = ClientContext {
            items: slab_new(),
            headers: Vec::new(),
            params: Vec::new(),
            last_clear_time: now_ms,
            clear_expires_enabled: true,
        };
        proof {
            assert(c.cells().dom() =~= Set::<int>::empty());
            assert(c.headers_view() =~= Seq::<PairView>::empty());
            assert(c.params_view() =~= Seq::<PairView>::empty());
        }
        c
    }

    /// Enable or disable the expiry sweep; enabling restarts the sweep
    /// interval at the current time.
    pub fn set_clear_expires_enabled(&mut self, value: bool, now_ms: u64)
        ensures
            final(self).sweep_enabled() == value,
            final(self).last_sweep() == if value {
                now_ms
            } else {
                old(self).last_sweep()
            },
            final(self).cells() == old(self).cells(),
            final(self).headers_view() == old(self).headers_view(),
            final(self).params_view() == old(self).params_view(),
    {
        self.clear_expires_enabled = value;
        if value {
            self.last_clear_time = now_ms;
        }
    }

    /// Opportunistic maintenance: when enabled and at least the sweep
    /// interval has passed since the previous sweep, drop every resolved
    /// result that has outlived the retention window and restart the
    /// interval. Pending slots are never evicted.
    pub fn clear_expires_data(&mut self, now_ms: u64)
        ensures
            final(self).cells() == reg_maintain(
                old(self).cells(),
                now_ms,
                old(self).last_sweep(),
                old(self).sweep_enabled(),
            ),
            final(self).last_sweep() == if old(self).sweep_enabled() && sweep_due(
                now_ms,
                old(self).last_sweep(),
            ) {
                now_ms
            } else {
                old(self).last_sweep()
            },
            final(self).sweep_enabled() == old(self).sweep_enabled(),
            final(self).headers_view() == old(self).headers_view(),
            final(self).params_view() == old(self).params_view(),
            old(self).wf() ==> final(self).wf(),
    {
        if !self.clear_expires_enabled {
            return ;
        }
        if now_ms >= self.last_clear_time && now_ms - self.last_clear_time
            >= SWEEP_INTERVAL_MS {
            self.last_clear_time = now_ms;
            let ghost pre = slab_entries(self.items);
            slab_retain_fresh(&mut self.items, now_ms);
            proof {
                assert(cells_of(slab_entries(self.items)) =~= reg_sweep(cells_of(pre), now_ms));
            }
        }
    }

    /// Submit a new operation: run the piggybacked maintenance step, then
    /// store a fresh pending cell under a vacant slot index (a freed index
    /// may be reused) and return it as the operation's handle. The new
    /// handle never collides with a handle that is still live.
    pub fn begin_request(&mut self, now_ms: u64) -> (key: u64)
        requires
            old(self).wf(),
        ensures
            final(self).wf(),
            key <= usize::MAX,
            !reg_maintain(
                old(self).cells(),
                now_ms,
                old(self).last_sweep(),
                old(self).sweep_enabled(),
            ).dom().contains(key as int),
            final(self).cells() == reg_maintain(
                old(self).cells(),
                now_ms,
                old(self).last_sweep(),
                old(self).sweep_enabled(),
            ).insert(key as int, CellView::Pending),
            final(self).last_sweep() == if old(self).sweep_enabled() && sweep_due(
                now_ms,
                old(self).last_sweep(),
            ) {
                now_ms
            } else {
                old(self).last_sweep()
            },
            final(self).sweep_enabled() == old(self).sweep_enabled(),
            final(self).headers_view() == old(self).headers_view(),
            final(self).params_view() == old(self).params_view(),
    {
        self.clear_expires_data(now_ms);
        let ghost pre = slab_entries(self.items);
        let k = slab_insert(&mut self.items, ResultCell::new());
        proof {
            lemma_cells_insert(pre, k as int, ResultCell { value: Option::None });
        }
        k as u64
    }

    /// Record one operation's outcome, as the spawned task does when its
    /// transport work finishes: the write lands only if the slot is still
    /// live (the host has not removed it) and still pending. Otherwise —
    /// the operation was abandoned, or a first write already won — nothing
    /// at all is written.
    pub fn complete(&mut self, key: u64, result: RespResult) -> (did: bool)
        requires
            old(self).wf(),
        ensures
            final(self).wf(),
            did == (op_state(old(self).cells(), key) == STATE_PENDING),
            final(self).cells() == reg_complete(old(self).cells(), key, result@),
            final(self).last_sweep() == old(self).last_sweep(),
            final(self).sweep_enabled() == old(self).sweep_enabled(),
            final(self).headers_view() == old(self).headers_view(),
            final(self).params_view() == old(self).params_view(),
    {
        if key > usize::MAX as u64 {
            return false;
        }
        let k = key as usize;
        match slab_get_cloned(&self.items, k) {
            Option::None => false,
            Option::Some(mut cell) => {
                if cell.state() == STATE_PENDING {
                    let ghost pre = slab_entries(self.items);
                    let _ = cell.set(result);
                    slab_set(&mut self.items, k, cell);
                    proof {
                        lemma_cells_insert(pre, k as int, cell);
                        assert forall|j: int| self.cells().dom().contains(j) implies 0 <= j
                            <= usize::MAX by {
                            if j != k as int {
                                assert(old(self).cells().dom().contains(j));
                            }
                        }
                    }
                    true
                } else {
                    false
                }
            },
        }
    }

    /// What the spawned task does when the transport answers or fails:
    /// normalize the outcome and try to resolve the slot. If the host
    /// abandoned the operation meanwhile, nothing is written and the work
    /// ends silently.
    pub fn handle_response(&mut self, key: u64, event: HttpEvent, now_ms: u64) -> (did:
        bool)
        requires
            old(self).wf(),
        ensures
            final(self).wf(),
            did == (op_state(old(self).cells(), key) == STATE_PENDING),
            final(self).cells() == reg_complete(
                old(self).cells(),
                key,
                normalized(event, now_ms),
            ),
            final(self).last_sweep() == old(self).last_sweep(),
            final(self).sweep_enabled() == old(self).sweep_enabled(),
            final(self).headers_view() == old(self).headers_view(),
            final(self).params_view() == old(self).params_view(),
    {
        let result = normalize_response(event, now_ms);
        self.complete(key, result)
    }

    /// Poll the state of a handle.
    pub fn request_state(&self, key: u64) -> (s: i32)
        requires
            self.wf(),
        ensures
            s == op_state(self.cells(), key),
    {
        if key > usize::MAX as u64 {
            return STATE_NOT_FOUND;
        }
        match slab_get_cloned(&self.items, key as usize) {
            Option::None => STATE_NOT_FOUND,
            Option::Some(cell) => cell.state(),
        }
    }

    /// The failure message recorded for a handle: present exactly when the
    /// operation resolved to a failure. The returned text is an independent
    /// copy, so repeated calls return identical content.
    pub fn request_error(&self, key: u64) -> (r: Option<String>)
        requires
            self.wf(),
        ensures
            match op_result(self.cells(), key) {
                Option::Some(res) => match res.resp {
                    RespKindView::Error(e) => r matches Option::Some(m) && m@ == e,
                    RespKindView::Data(_) => r is None,
                },
                Option::None => r is None,
            },
    {
        if key > usize::MAX as u64 {
            return Option::None;
        }
        match slab_get_cloned(&self.items, key as usize) {
            Option::None => Option::None,
            Option::Some(cell) => match cell.value {
                Option::None => Option::None,
                Option::Some(res) => match res.resp {
                    RespResultType::Error(e) => Option::Some(e),
                    RespResultType::Data(_) => Option::None,
                },
            },
        }
    }

    /// The packaged response recorded for a handle: present exactly when
    /// the operation resolved to a response. The body buffer is an
    /// independent copy, so repeated calls return identical content.
    pub fn request_response(&self, key: u64) -> (r: Option<RequestResponse>)
        requires
            self.wf(),
        ensures
            match op_result(self.cells(), key) {
                Option::Some(res) => match res.resp {
                    RespKindView::Data(d) => r matches Option::Some(rr) && rr.data@ == d.data
                        && rr.status == d.status && rr.version == version_code(d.version),
                    RespKindView::Error(_) => r is None,
                },
                Option::None => r is None,
            },
    {
        if key > usize::MAX as u64 {
            return Option::None;
        }
        match slab_get_cloned(&self.items, key as usize) {
            Option::None => Option::None,
            Option::Some(cell) => match cell.value {
                Option::None => Option::None,
                Option::Some(res) => match res.resp {
                    RespResultType::Data(d) => Option::Some(RequestResponse::from(&d)),
                    RespResultType::Error(_) => Option::None,
                },
            },
        }
    }

    /// The cookies recorded for a handle: present exactly when the
    /// operation resolved to a response.
    pub fn response_cookies(&self, key: u64) -> (r: Option<Vec<Pair>>)
        requires
            self.wf(),
        ensures
            match op_result(self.cells(), key) {
                Option::Some(res) => match res.resp {
                    RespKindView::Data(d) => r matches Option::Some(cs) && cs@.map_values(
                        |p: Pair| p@,
                    ) == d.cookies,
                    RespKindView::Error(_) => r is None,
                },
                Option::None => r is None,
            },
    {
        if key > usize::MAX as u64 {
            return Option::None;
        }
        match slab_get_cloned(&self.items, key as usize) {
            Option::None => Option::None,
            Option::Some(cell) => match cell.value {
                Option::None => Option::None,
                Option::Some(res) => match res.resp {
                    RespResultType::Data(d) => Option::Some(d.cookies),
                    RespResultType::Error(_) => Option::None,
                },
            },
        }
    }

    /// Configure an extra request header, replacing any value already
    /// configured under the same name. The configuration is snapshotted by
    /// the embedding program at submission time, so later changes do not
    /// affect operations already spawned.
    pub fn add_header(&mut self, key: String, value: String)
        ensures
            (pair_lookup(final(self).headers_view(), key@) matches Option::Some(v) && v
                == value@),
            forall|k2: Seq<char>|
                k2 != key@ ==> #[trigger] pair_lookup(final(self).headers_view(), k2)
                    == pair_lookup(old(self).headers_view(), k2),
            final(self).cells() == old(self).cells(),
            final(self).params_view() == old(self).params_view(),
            final(self).last_sweep() == old(self).last_sweep(),
            final(self).sweep_enabled() == old(self).sweep_enabled(),
    {
        upsert_pair(&mut self.headers, key, value);
    }

    /// Drop every configured extra header.
    pub fn clear_header(&mut self)
        ensures
            final(self).headers_view() == Seq::<PairView>::empty(),
            final(self).cells() == old(self).cells(),
            final(self).params_view() == old(self).params_view(),
            final(self).last_sweep() == old(self).last_sweep(),
            final(self).sweep_enabled() == old(self).sweep_enabled(),
    {
        self.headers.clear();
        proof {
            assert(self.headers_view() =~= Seq::<PairView>::empty());
        }
    }

    /// Configure an extra query parameter, replacing any value already
    /// configured under the same name.
    pub fn add_param(&mut self, key: String, value: String)
        ensures
            (pair_lookup(final(self).params_view(), key@) matches Option::Some(v) && v
                == value@),
            forall|k2: Seq<char>|
                k2 != key@ ==> #[trigger] pair_lookup(final(self).params_view(), k2)
                    == pair_lookup(old(self).params_view(), k2),
            final(self).cells() == old(self).cells(),
            final(self).headers_view() == old(self).headers_view(),
            final(self).last_sweep() == old(self).last_sweep(),
            final(self).sweep_enabled() == old(self).sweep_enabled(),
    {
        upsert_pair(&mut self.params, key, value);
    }

    /// Drop every configured extra query parameter.
    pub fn clear_param(&mut self)
        ensures
            final(self).params_view() == Seq::<PairView>::empty(),
            final(self).cells() == old(self).cells(),
            final(self).headers_view() == old(self).headers_view(),
            final(self).last_sweep() == old(self).last_sweep(),
            final(self).sweep_enabled() == old(self).sweep_enabled(),
    {
        self.params.clear();
        proof {
            assert(self.params_view() =~= Seq::<PairView>::empty());
        }
    }

    /// The configured extra headers, for the embedding program to snapshot
    /// when it spawns an operation.
    pub fn headers(&self) -> (r: &Vec<Pair>)
        ensures
            pairs_view(r@) == self.headers_view(),
    {
        &self.headers
    }

    /// The configured extra query parameters, for the embedding program to
    /// snapshot when it spawns an operation.
    pub fn params(&self) -> (r: &Vec<Pair>)
        ensures
            pairs_view(r@) == self.params_view(),
    {
        &self.params
    }

    /// Invalidate a handle and free its slot index for future reuse,
    /// whether or not the result was ever read. The handle then polls as
    /// not found until the index is reissued by a new submission.
    pub fn remove_request(&mut self, key: u64)
        requires
            old(self).wf(),
        ensures
            final(self).wf(),
            final(self).cells() == old(self).cells().remove(key as int),
            final(self).last_sweep() == old(self).last_sweep(),
            final(self).sweep_enabled() == old(self).sweep_enabled(),
            final(self).headers_view() == old(self).headers_view(),
            final(self).params_view() == old(self).params_view(),
    {
        proof {
            if !old(self).cells().dom().contains(key as int) {
                assert(old(self).cells().remove(key as int) =~= old(self).cells());
            }
        }
        if key > usize::MAX as u64 {
            return ;
        }
        let ghost pre = slab_entries(self.items);
        let _ = slab_try_remove(&mut self.items, key as usize);
        proof {
            lemma_cells_remove(pre, key as int);
            if !cells_of(pre).dom().contains(key as int) {
                assert(cells_of(pre).remove(key as int) =~= cells_of(pre));
            }
        }
    }
}

} // verus!

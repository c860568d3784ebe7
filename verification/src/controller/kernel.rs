//! Kernel addresses and the table of kernels the controller tracks.
use vstd::prelude::*;
use crate::controller::kernel::connection::KernelGrpcConnectionError;
use crate::seqs::{lemma_push_contains, lemma_push_no_duplicates, lemma_take_next, lemma_not_before};
use crate::keyed::{KeyedVec, MapKey};
use crate::text::{chars_of, find_in, find_first, occurs_at, first_occurrence, lemma_first_occurrence_unique, same_text, string_of_range, owned};

pub mod connection;
pub mod discovery;

verus! {

/// Where a kernel can be reached.
#[derive(Debug)]
pub enum KernelAddr {
    /// A unix domain socket path.
    Uds(String),
    /// A gRPC endpoint.
    Grpc(String),
}

/// The value of a kernel address.
pub enum KernelAddrView {
    Uds(Seq<char>),
    Grpc(Seq<char>),
}

impl View for KernelAddr {
    type V = KernelAddrView;

    open spec fn view(&self) -> KernelAddrView {
        match self {
            KernelAddr::Uds(p) => KernelAddrView::Uds(p@),
            KernelAddr::Grpc(a) => KernelAddrView::Grpc(a@),
        }
    }
}

/// Why a text is not a kernel address.
#[derive(Debug)]
pub enum KernelAddrParseError {
    /// The scheme before `://` is not one of the known ones.
    UnknownFormat { format: String },
    /// The text has no `://`.
    NoScheme,
    /// A tcp address could not be read (message of the underlying error).
    InvalidTcpAddress(String),
}

/// What reading a text as a kernel address gives.
pub enum KernelAddrParse {
    Parsed(KernelAddrView),
    UnknownFormat(Seq<char>),
    NoScheme,
}

/// The separator between scheme and rest.
pub open spec fn scheme_separator() -> Seq<char> {
    seq![':', '/', '/']
}

/// The text `unix`.
pub open spec fn unix_scheme() -> Seq<char> {
    seq!['u', 'n', 'i', 'x']
}

/// Schemes that name a unix socket.
pub open spec fn is_uds_scheme(s: Seq<char>) -> bool {
    s == seq!['u', 'd', 's'] || s == unix_scheme()
}

/// Schemes that name a gRPC endpoint.
pub open spec fn is_grpc_scheme(s: Seq<char>) -> bool {
    s == seq!['h', 't', 't', 'p'] || s == seq!['h', 't', 't', 'p', 's'] || s == seq!['g', 'r', 'p', 'c']
}

/// A kernel address text is split at the first `://`; the scheme picks the kind and
/// the rest is kept as the socket path or endpoint.
pub open spec fn kernel_addr_of_text(s: Seq<char>) -> KernelAddrParse {
    match find_first(s, scheme_separator()) {
        None => KernelAddrParse::NoScheme,
        Some(i) => {
            let scheme = s.subrange(0, i);
            let rest = s.subrange(i + 3, s.len() as int);
            if is_uds_scheme(scheme) {
                KernelAddrParse::Parsed(KernelAddrView::Uds(rest))
            } else if is_grpc_scheme(scheme) {
                KernelAddrParse::Parsed(KernelAddrView::Grpc(rest))
            } else {
                KernelAddrParse::UnknownFormat(scheme)
            }
        },
    }
}

/// The display text of a kernel address.
pub open spec fn kernel_addr_text(a: KernelAddrView) -> Seq<char> {
    match a {
        KernelAddrView::Uds(p) => unix_scheme() + scheme_separator() + p,
        KernelAddrView::Grpc(e) => e,
    }
}

impl KernelAddr {
    /// Reads a kernel address such as `unix:///run/sbk.sock` or `grpc://host:port`.
    pub fn from_str(s: &str) -> (r: Result<KernelAddr, KernelAddrParseError>)
        ensures
            match kernel_addr_of_text(s@) {
                KernelAddrParse::Parsed(a) => r is Ok && r->Ok_0@ == a,
                KernelAddrParse::UnknownFormat(f) => r matches Err(KernelAddrParseError::UnknownFormat { format }) && format@ == f,
                KernelAddrParse::NoScheme => r matches Err(KernelAddrParseError::NoScheme),
            },
    {
        let v = chars_of(s);
        let sep: Vec<char> = vec![':', '/', '/'];
        assert(sep@ =~= scheme_separator());
        match find_in(&v, &sep) {
            None => Err(KernelAddrParseError::NoScheme),
            Some(i) => {
                assert(v@.len() == v.len());
                assert(sep@.len() == 3);
                assert(i + 3 <= v@.len());
                let scheme = string_of_range(&v, 0, i);
                let rest = string_of_range(&v, i + 3, v.len());
                proof {
                    reveal_strlit("uds");
                    reveal_strlit("unix");
                    reveal_strlit("http");
                    reveal_strlit("https");
                    reveal_strlit("grpc");
                    assert("uds"@ =~= seq!['u', 'd', 's']);
                    assert("unix"@ =~= unix_scheme());
                    assert("http"@ =~= seq!['h', 't', 't', 'p']);
                    assert("https"@ =~= seq!['h', 't', 't', 'p', 's']);
                    assert("grpc"@ =~= seq!['g', 'r', 'p', 'c']);
                }
                if same_text(scheme.as_str(), "uds") || same_text(scheme.as_str(), "unix") {
                    Ok(KernelAddr::Uds(rest))
                } else if same_text(scheme.as_str(), "http") || same_text(scheme.as_str(), "https")
                    || same_text(scheme.as_str(), "grpc") {
                    Ok(KernelAddr::Grpc(rest))
                } else {
                    Err(KernelAddrParseError::UnknownFormat { format: scheme })
                }
            },
        }
    }

    /// The display text: `unix://<path>` for a socket, the endpoint itself otherwise.
    pub fn to_string(&self) -> (r: String)
        ensures
            r@ == kernel_addr_text(self@),
    {
        match self {
            KernelAddr::Uds(p) => {
                let mut r = owned("unix://");
                r.append(p.as_str());
                proof {
                    reveal_strlit("unix://");
                    assert(r@ =~= unix_scheme() + scheme_separator() + p@);
                }
                r
            },
            KernelAddr::Grpc(e) => e.clone(),
        }
    }

    /// A copy of this address.
    pub fn duplicate(&self) -> (r: KernelAddr)
        ensures
            r@ == self@,
    {
        match self {
            KernelAddr::Uds(p) => KernelAddr::Uds(p.clone()),
            KernelAddr::Grpc(e) => KernelAddr::Grpc(e.clone()),
        }
    }

    /// Whether two addresses are the same.
    pub fn same_as(&self, other: &KernelAddr) -> (r: bool)
        ensures
            r == (self@ == other@),
    {
        match (self, other) {
            (KernelAddr::Uds(a), KernelAddr::Uds(b)) => same_text(a.as_str(), b.as_str()),
            (KernelAddr::Grpc(a), KernelAddr::Grpc(b)) => same_text(a.as_str(), b.as_str()),
            _ => false,
        }
    }
}

/// Reading back the display text of a socket address gives the same address.
pub proof fn lemma_uds_text_round_trip(p: Seq<char>)
    ensures
        kernel_addr_of_text(kernel_addr_text(KernelAddrView::Uds(p)))
            == KernelAddrParse::Parsed(KernelAddrView::Uds(p)),
{
    let s = kernel_addr_text(KernelAddrView::Uds(p));
    assert(s =~= seq!['u', 'n', 'i', 'x', ':', '/', '/'] + p);
    assert(s.subrange(4, 7) =~= scheme_separator());
    assert(occurs_at(s, 4, scheme_separator()));
    assert forall|j: int| 0 <= j < 4 implies !occurs_at(s, j, scheme_separator()) by {
        assert(s[j] != ':');
    }
    assert(first_occurrence(s, 4, scheme_separator()));
    let k = choose|k: int| first_occurrence(s, k, scheme_separator());
    lemma_first_occurrence_unique(s, 4, k, scheme_separator());
    assert(s.subrange(0, 4) =~= unix_scheme());
    assert(s.subrange(7, s.len() as int) =~= p);
}


/// A text `<scheme>://<rest>` whose scheme has no `:` splits at that first `://`.
pub proof fn lemma_scheme_split(scheme: Seq<char>, rest: Seq<char>)
    requires
        forall|i: int| 0 <= i < scheme.len() ==> scheme[i] != ':',
    ensures
        find_first(scheme + scheme_separator() + rest, scheme_separator()) == Some(scheme.len() as int),
        (scheme + scheme_separator() + rest).subrange(0, scheme.len() as int) == scheme,
        (scheme + scheme_separator() + rest).subrange(scheme.len() as int + 3, (scheme + scheme_separator() + rest).len() as int) == rest,
{
    let s = scheme + scheme_separator() + rest;
    let n = scheme.len() as int;
    assert(s.subrange(n, n + 3) =~= scheme_separator());
    assert(occurs_at(s, n, scheme_separator()));
    assert forall|j: int| 0 <= j < n implies !occurs_at(s, j, scheme_separator()) by {
        assert(s[j] == scheme[j]);
        if occurs_at(s, j, scheme_separator()) {
            assert(s.subrange(j, j + 3)[0] == s[j]);
        }
    }
    assert(first_occurrence(s, n, scheme_separator()));
    let k = choose|k: int| first_occurrence(s, k, scheme_separator());
    lemma_first_occurrence_unique(s, n, k, scheme_separator());
    assert(s.subrange(0, n) =~= scheme);
    assert(s.subrange(n + 3, s.len() as int) =~= rest);
}

/// Reading a kernel address: `uds://` and `unix://` name a socket path, `http://`,
/// `https://` and `grpc://` a gRPC endpoint, each followed by the rest of the text.
pub proof fn lemma_kernel_addr_schemes(rest: Seq<char>)
    ensures
        kernel_addr_of_text("uds://"@ + rest) == KernelAddrParse::Parsed(KernelAddrView::Uds(rest)),
        kernel_addr_of_text("unix://"@ + rest) == KernelAddrParse::Parsed(KernelAddrView::Uds(rest)),
        kernel_addr_of_text("http://"@ + rest) == KernelAddrParse::Parsed(KernelAddrView::Grpc(rest)),
        kernel_addr_of_text("https://"@ + rest) == KernelAddrParse::Parsed(KernelAddrView::Grpc(rest)),
        kernel_addr_of_text("grpc://"@ + rest) == KernelAddrParse::Parsed(KernelAddrView::Grpc(rest)),
{
    reveal_strlit("uds://");
    reveal_strlit("unix://");
    reveal_strlit("http://");
    reveal_strlit("https://");
    reveal_strlit("grpc://");
    let a = seq!['u', 'd', 's'];
    let b = seq!['u', 'n', 'i', 'x'];
    let c = seq!['h', 't', 't', 'p'];
    let d = seq!['h', 't', 't', 'p', 's'];
    let e = seq!['g', 'r', 'p', 'c'];
    assert("uds://"@ + rest =~= a + scheme_separator() + rest);
    assert("unix://"@ + rest =~= b + scheme_separator() + rest);
    assert("http://"@ + rest =~= c + scheme_separator() + rest);
    assert("https://"@ + rest =~= d + scheme_separator() + rest);
    assert("grpc://"@ + rest =~= e + scheme_separator() + rest);
    lemma_scheme_split(a, rest);
    lemma_scheme_split(b, rest);
    lemma_scheme_split(c, rest);
    lemma_scheme_split(d, rest);
    lemma_scheme_split(e, rest);
}

/// Whether a kernel's connection is up, holding the live connection when it is.
pub enum KernelHandleState<C> {
    Disconnected,
    Connected(C),
}

/// A tracked kernel: its address and its connection state.
pub struct KernelHandle<C> {
    pub addr: KernelAddr,
    pub state: KernelHandleState<C>,
}

impl<C> KernelHandle<C> {
    /// A handle for a kernel reached through `conn`.
    pub fn new_connected(addr: KernelAddr, conn: C) -> (h: Self)
        ensures
            h.addr == addr,
            h.state == KernelHandleState::Connected(conn),
    {
        KernelHandle { addr, state: KernelHandleState::Connected(conn) }
    }

    /// A handle for a kernel that could not be reached.
    pub fn new_disconnected(addr: KernelAddr) -> (h: Self)
        ensures
            h.addr == addr,
            h.state is Disconnected,
    {
        KernelHandle { addr, state: KernelHandleState::Disconnected }
    }

    /// Whether the handle holds a live connection.
    pub fn is_connected(&self) -> (b: bool)
        ensures
            b == self.state is Connected,
    {
        match self.state {
            KernelHandleState::Connected(_) => true,
            KernelHandleState::Disconnected => false,
        }
    }

    /// The live connection, if any.
    pub fn get_connected_handle(&self) -> (r: Option<&C>)
        ensures
            self.state is Connected <==> r is Some,
            r is Some ==> self.state == KernelHandleState::Connected(*r->0),
    {
        match &self.state {
            KernelHandleState::Connected(c) => Some(c),
            KernelHandleState::Disconnected => None,
        }
    }
}

/// The addresses of a sequence of handles.
pub open spec fn handle_addrs<C>(s: Seq<KernelHandle<C>>) -> Seq<KernelAddrView> {
    s.map_values(|h: KernelHandle<C>| h.addr@)
}

/// The addresses of a sequence of kernel addresses.
pub open spec fn addr_views(s: Seq<KernelAddr>) -> Seq<KernelAddrView> {
    s.map_values(|a: KernelAddr| a@)
}

/// The table that a sequence of handles with distinct addresses stands for.
pub open spec fn table_of<C>(s: Seq<KernelHandle<C>>) -> Map<KernelAddrView, bool> {
    Map::new(
        |a: KernelAddrView| handle_addrs(s).contains(a),
        |a: KernelAddrView| s[handle_addrs(s).index_of(a)].state is Connected,
    )
}

/// Each handle shows up in the table with its state.
pub proof fn lemma_table_of_at<C>(s: Seq<KernelHandle<C>>, i: int)
    requires
        handle_addrs(s).no_duplicates(),
        0 <= i < s.len(),
    ensures
        table_of(s).dom().contains(s[i].addr@),
        table_of(s)[s[i].addr@] == s[i].state is Connected,
{
    let h = handle_addrs(s);
    assert(h[i] == s[i].addr@);
    assert(h.contains(h[i]));
    let k = h.index_of(h[i]);
    assert(h[k] == h[i]);
}

/// A table is determined by what each handle says and by which addresses occur.
pub proof fn lemma_table_of_ext<C>(s: Seq<KernelHandle<C>>, m: Map<KernelAddrView, bool>)
    requires
        handle_addrs(s).no_duplicates(),
        forall|j: int| 0 <= j < s.len() ==> m.dom().contains(#[trigger] s[j].addr@)
            && m[s[j].addr@] == s[j].state is Connected,
        forall|x: KernelAddrView| m.dom().contains(x) ==> exists|j: int|
            0 <= j < s.len() && #[trigger] s[j].addr@ == x,
    ensures
        table_of(s) == m,
{
    let h = handle_addrs(s);
    assert forall|x: KernelAddrView| #[trigger] table_of(s).dom().contains(x) == m.dom().contains(x) by {
        if m.dom().contains(x) {
            let j = choose|j: int| 0 <= j < s.len() && s[j].addr@ == x;
            assert(h[j] == x);
        }
        if h.contains(x) {
            let j = choose|j: int| 0 <= j < h.len() && h[j] == x;
            assert(s[j].addr@ == x);
        }
    }
    assert forall|x: KernelAddrView| table_of(s).dom().contains(x) implies #[trigger] table_of(s)[x] == m[x] by {
        let k = h.index_of(x);
        assert(h[k] == x);
        assert(s[k].addr@ == x);
    }
    assert(table_of(s) =~= m);
}

/// The connection state of each handle of a sequence with distinct addresses, by address.
pub open spec fn states_of<C>(s: Seq<KernelHandle<C>>) -> Map<KernelAddrView, KernelHandleState<C>> {
    Map::new(
        |a: KernelAddrView| handle_addrs(s).contains(a),
        |a: KernelAddrView| s[handle_addrs(s).index_of(a)].state,
    )
}

/// Whether each state is a live connection.
pub open spec fn connected_of<C>(m: Map<KernelAddrView, KernelHandleState<C>>) -> Map<KernelAddrView, bool> {
    m.map_values(|st: KernelHandleState<C>| st is Connected)
}

/// The states of handles tracked one after another from the last to the first: an address
/// that occurs twice keeps the state of its first handle.
pub open spec fn states_first_wins<C>(s: Seq<KernelHandle<C>>) -> Map<KernelAddrView, KernelHandleState<C>>
    decreases s.len(),
{
    if s.len() == 0 {
        Map::empty()
    } else {
        states_first_wins(s.drop_first()).insert(s[0].addr@, s[0].state)
    }
}

/// The addresses taken by `states_first_wins` are those of the handles.
pub proof fn lemma_states_first_wins_dom<C>(s: Seq<KernelHandle<C>>)
    ensures
        states_first_wins(s).dom() == handle_addrs(s).to_set(),
    decreases s.len(),
{
    if s.len() > 0 {
        lemma_states_first_wins_dom(s.drop_first());
        let h = handle_addrs(s);
        assert(handle_addrs(s.drop_first()) =~= h.drop_first());
        assert forall|a: KernelAddrView| h.to_set().contains(a) <==> (a == s[0].addr@ || h.drop_first().to_set().contains(a)) by {
            if h.contains(a) {
                let i = choose|i: int| 0 <= i < h.len() && h[i] == a;
                if i > 0 {
                    assert(h.drop_first()[i - 1] == a);
                }
            }
            if h.drop_first().contains(a) {
                let i = choose|i: int| 0 <= i < h.drop_first().len() && h.drop_first()[i] == a;
                assert(h[i + 1] == a);
            }
            assert(h[0] == s[0].addr@);
        }
        assert(states_first_wins(s).dom() =~= handle_addrs(s).to_set());
    } else {
        assert(states_first_wins(s).dom() =~= handle_addrs(s).to_set());
    }
}

/// The table says of each handle whether its state is a live connection.
pub proof fn lemma_table_of_states<C>(s: Seq<KernelHandle<C>>)
    ensures
        table_of(s) == connected_of(states_of(s)),
{
    assert(table_of(s) =~= connected_of(states_of(s)));
}

/// Each handle shows up with its state.
pub proof fn lemma_states_of_at<C>(s: Seq<KernelHandle<C>>, i: int)
    requires
        handle_addrs(s).no_duplicates(),
        0 <= i < s.len(),
    ensures
        states_of(s).dom().contains(s[i].addr@),
        states_of(s)[s[i].addr@] == s[i].state,
{
    let h = handle_addrs(s);
    assert(h[i] == s[i].addr@);
    assert(h.contains(h[i]));
    let k = h.index_of(h[i]);
    assert(h[k] == h[i]);
}

/// The states are determined by what each handle holds and by which addresses occur.
pub proof fn lemma_states_of_ext<C>(s: Seq<KernelHandle<C>>, m: Map<KernelAddrView, KernelHandleState<C>>)
    requires
        handle_addrs(s).no_duplicates(),
        forall|j: int| 0 <= j < s.len() ==> m.dom().contains(#[trigger] s[j].addr@) && m[s[j].addr@] == s[j].state,
        forall|x: KernelAddrView| m.dom().contains(x) ==> exists|j: int|
            0 <= j < s.len() && #[trigger] s[j].addr@ == x,
    ensures
        states_of(s) == m,
{
    let h = handle_addrs(s);
    assert forall|x: KernelAddrView| #[trigger] states_of(s).dom().contains(x) == m.dom().contains(x) by {
        if m.dom().contains(x) {
            let j = choose|j: int| 0 <= j < s.len() && s[j].addr@ == x;
            assert(h[j] == x);
        }
        if h.contains(x) {
            let j = choose|j: int| 0 <= j < h.len() && h[j] == x;
            assert(s[j].addr@ == x);
        }
    }
    assert forall|x: KernelAddrView| states_of(s).dom().contains(x) implies #[trigger] states_of(s)[x] == m[x] by {
        let k = h.index_of(x);
        assert(h[k] == x);
        assert(s[k].addr@ == x);
        lemma_states_of_at(s, k);
    }
    assert(states_of(s) =~= m);
}

/// `s` with every address kept at its first occurrence only.
pub open spec fn dedup_addrs(s: Seq<KernelAddrView>) -> Seq<KernelAddrView>
    decreases s.len(),
{
    if s.len() == 0 {
        s
    } else {
        let d = dedup_addrs(s.drop_last());
        if d.contains(s.last()) { d } else { d.push(s.last()) }
    }
}

/// The kernel at `a` is tracked with a live connection.
pub open spec fn is_live(m: Map<KernelAddrView, bool>, a: KernelAddrView) -> bool {
    m.dom().contains(a) && m[a]
}

/// The addresses of `s` that are live in `m`, in order.
pub open spec fn live_part(m: Map<KernelAddrView, bool>, s: Seq<KernelAddrView>) -> Seq<KernelAddrView>
    decreases s.len(),
{
    if s.len() == 0 {
        s
    } else if is_live(m, s.last()) {
        live_part(m, s.drop_last()).push(s.last())
    } else {
        live_part(m, s.drop_last())
    }
}

/// The addresses of `s` that are not live in `m`, in order.
pub open spec fn dead_part(m: Map<KernelAddrView, bool>, s: Seq<KernelAddrView>) -> Seq<KernelAddrView>
    decreases s.len(),
{
    if s.len() == 0 {
        s
    } else if !is_live(m, s.last()) {
        dead_part(m, s.drop_last()).push(s.last())
    } else {
        dead_part(m, s.drop_last())
    }
}

/// The addresses of a list of per-kernel results.
pub open spec fn result_addrs(s: Seq<(KernelAddr, Result<(), KernelGrpcConnectionError>)>) -> Seq<KernelAddrView> {
    s.map_values(|p: (KernelAddr, Result<(), KernelGrpcConnectionError>)| p.0@)
}

/// Each tracked kernel gets exactly one answer: it is called when its connection is up and
/// reported not connected otherwise, never both, and no other kernel gets one.
pub proof fn lemma_one_answer_per_kernel(
    m: Map<KernelAddrView, bool>,
    calls: Seq<KernelAddrView>,
    results: Seq<KernelAddrView>,
)
    requires
        calls.no_duplicates(),
        results.no_duplicates(),
        forall|a: KernelAddrView| calls.contains(a) <==> is_live(m, a),
        forall|a: KernelAddrView| results.contains(a) <==> (m.dom().contains(a) && !is_live(m, a)),
    ensures
        (calls + results).no_duplicates(),
        (calls + results).to_set() == m.dom(),
{
    let s = calls + results;
    assert forall|i: int, j: int| 0 <= i < s.len() && 0 <= j < s.len() && i != j implies s[i] != s[j] by {
        if i < calls.len() && j >= calls.len() {
            assert(calls.contains(s[i]));
            assert(results.contains(results[j - calls.len()]));
        } else if j < calls.len() && i >= calls.len() {
            assert(calls.contains(s[j]));
            assert(results.contains(results[i - calls.len()]));
        } else if i >= calls.len() {
            assert(s[i] == results[i - calls.len()] && s[j] == results[j - calls.len()]);
        }
    }
    assert forall|a: KernelAddrView| s.to_set().contains(a) <==> m.dom().contains(a) by {
        if m.dom().contains(a) {
            if is_live(m, a) {
                let i = choose|i: int| 0 <= i < calls.len() && calls[i] == a;
                assert(s[i] == a);
            } else {
                let i = choose|i: int| 0 <= i < results.len() && results[i] == a;
                assert(s[calls.len() + i] == a);
            }
        }
        if s.contains(a) {
            let i = choose|i: int| 0 <= i < s.len() && s[i] == a;
            if i < calls.len() {
                assert(calls.contains(a));
            } else {
                assert(results[i - calls.len()] == a);
                assert(results.contains(a));
            }
        }
    }
    assert(s.to_set() =~= m.dom());
}

/// Every result in `s` says the kernel is not connected.
pub open spec fn all_not_connected(s: Seq<(KernelAddr, Result<(), KernelGrpcConnectionError>)>) -> bool {
    forall|i: int| 0 <= i < s.len() ==> #[trigger] s[i].1 matches Err(KernelGrpcConnectionError::KernelNotConnected)
}

/// What the deduplicated sequence holds.
pub proof fn lemma_dedup_addrs(s: Seq<KernelAddrView>)
    ensures
        dedup_addrs(s).no_duplicates(),
        forall|a: KernelAddrView| dedup_addrs(s).contains(a) <==> s.contains(a),
        s.no_duplicates() ==> dedup_addrs(s) == s,
    decreases s.len(),
{
    if s.len() > 0 {
        let p = s.drop_last();
        lemma_dedup_addrs(p);
        let d = dedup_addrs(p);
        assert forall|a: KernelAddrView| s.contains(a) <==> (p.contains(a) || a == s.last()) by {
            if s.contains(a) {
                let i = choose|i: int| 0 <= i < s.len() && s[i] == a;
                if i < s.len() - 1 {
                    assert(p[i] == a);
                }
            }
            if p.contains(a) {
                let i = choose|i: int| 0 <= i < p.len() && p[i] == a;
                assert(s[i] == a);
            }
        }
        if !d.contains(s.last()) {
            let e = d.push(s.last());
            assert forall|a: KernelAddrView| e.contains(a) <==> (d.contains(a) || a == s.last()) by {
                if e.contains(a) {
                    let i = choose|i: int| 0 <= i < e.len() && e[i] == a;
                    if i < d.len() {
                        assert(d[i] == a);
                    }
                }
                if d.contains(a) {
                    let i = choose|i: int| 0 <= i < d.len() && d[i] == a;
                    assert(e[i] == a);
                }
                assert(e[e.len() - 1] == s.last());
            }
        }
        if s.no_duplicates() {
            assert(p.no_duplicates());
            assert(!p.contains(s.last())) by {
                if p.contains(s.last()) {
                    let i = choose|i: int| 0 <= i < p.len() && p[i] == s.last();
                    assert(s[i] == s[s.len() - 1]);
                }
            }
            assert(s =~= p.push(s.last()));
        }
    }
}

/// Which addresses the live and dead parts hold.
pub proof fn lemma_parts(m: Map<KernelAddrView, bool>, s: Seq<KernelAddrView>)
    ensures
        forall|a: KernelAddrView| live_part(m, s).contains(a) <==> (s.contains(a) && is_live(m, a)),
        forall|a: KernelAddrView| dead_part(m, s).contains(a) <==> (s.contains(a) && !is_live(m, a)),
        s.no_duplicates() ==> live_part(m, s).no_duplicates() && dead_part(m, s).no_duplicates(),
    decreases s.len(),
{
    if s.len() > 0 {
        let p = s.drop_last();
        lemma_parts(m, p);
        assert forall|a: KernelAddrView| s.contains(a) <==> (p.contains(a) || a == s.last()) by {
            if s.contains(a) {
                let i = choose|i: int| 0 <= i < s.len() && s[i] == a;
                if i < s.len() - 1 {
                    assert(p[i] == a);
                }
            }
            if p.contains(a) {
                let i = choose|i: int| 0 <= i < p.len() && p[i] == a;
                assert(s[i] == a);
            }
        }
        let lp = live_part(m, p);
        let dp = dead_part(m, p);
        let x = s.last();
        assert forall|a: KernelAddrView| lp.push(x).contains(a) <==> (lp.contains(a) || a == x) by {
            if lp.push(x).contains(a) {
                let i = choose|i: int| 0 <= i < lp.push(x).len() && lp.push(x)[i] == a;
                if i < lp.len() {
                    assert(lp[i] == a);
                }
            }
            if lp.contains(a) {
                let i = choose|i: int| 0 <= i < lp.len() && lp[i] == a;
                assert(lp.push(x)[i] == a);
            }
            assert(lp.push(x)[lp.len() as int] == x);
        }
        assert forall|a: KernelAddrView| dp.push(x).contains(a) <==> (dp.contains(a) || a == x) by {
            if dp.push(x).contains(a) {
                let i = choose|i: int| 0 <= i < dp.push(x).len() && dp.push(x)[i] == a;
                if i < dp.len() {
                    assert(dp[i] == a);
                }
            }
            if dp.contains(a) {
                let i = choose|i: int| 0 <= i < dp.len() && dp[i] == a;
                assert(dp.push(x)[i] == a);
            }
            assert(dp.push(x)[dp.len() as int] == x);
        }
        if s.no_duplicates() {
            assert(p.no_duplicates());
            assert(!p.contains(x)) by {
                if p.contains(x) {
                    let i = choose|i: int| 0 <= i < p.len() && p[i] == x;
                    assert(s[i] == s[s.len() - 1]);
                }
            }
        }
    }
}

/// How a request to several kernels is carried out: the kernels to call, and the
/// results already known for kernels that cannot be called.
pub struct KernelDispatch {
    pub calls: Vec<KernelAddr>,
    pub results: Vec<(KernelAddr, Result<(), KernelGrpcConnectionError>)>,
}

/// Keeps the first occurrence of each address.
pub fn dedup_kernel_addrs(addrs: &[KernelAddr]) -> (r: Vec<KernelAddr>)
    ensures
        addr_views(r@) == dedup_addrs(addr_views(addrs@)),
{
    let mut r: Vec<KernelAddr> = Vec::new();
    let mut i: usize = 0;
    while i < addrs.len()
        invariant
            i <= addrs@.len(),
            addr_views(r@) == dedup_addrs(addr_views(addrs@).take(i as int)),
        decreases addrs@.len() - i,
    {
        let mut found = false;
        let mut j: usize = 0;
        while j < r.len()
            invariant
                j <= r@.len(),
                i < addrs@.len(),
                found == exists|k: int| 0 <= k < j && r@[k]@ == addrs@[i as int]@,
            decreases r@.len() - j,
        {
            if r[j].same_as(&addrs[i]) {
                found = true;
            }
            j = j + 1;
        }
        let ghost prev = r@;
        proof {
            let t = addr_views(addrs@).take(i + 1);
            assert(t.drop_last() =~= addr_views(addrs@).take(i as int));
            assert(t.last() == addrs@[i as int]@);
            if found {
                let k = choose|k: int| 0 <= k < j && r@[k]@ == addrs@[i as int]@;
                assert(addr_views(r@)[k] == t.last());
            } else {
                assert forall|k: int| 0 <= k < addr_views(r@).len() implies addr_views(r@)[k] != t.last() by {
                    assert(addr_views(r@)[k] == r@[k]@);
                }
            }
        }
        if !found {
            r.push(addrs[i].duplicate());
            proof {
                assert(addr_views(r@) =~= addr_views(prev).push(addrs@[i as int]@));
            }
        }
        i = i + 1;
    }
    assert(addr_views(addrs@).take(addrs@.len() as int) =~= addr_views(addrs@));
    r
}

/// The table of kernels, keyed by address: each address at most once.
pub struct KernelManager<C> {
    kernels: Vec<KernelHandle<C>>,
}

impl<C> KernelManager<C> {
    #[verifier::type_invariant]
    spec fn addrs_unique(self) -> bool {
        handle_addrs(self.kernels@).no_duplicates()
    }

    /// The tracked addresses, each mapped to whether its connection is up.
    pub closed spec fn table(self) -> Map<KernelAddrView, bool> {
        table_of(self.kernels@)
    }

    /// The tracked addresses, each mapped to the state of its handle (with the connection
    /// itself when it is up).
    pub closed spec fn handles(self) -> Map<KernelAddrView, KernelHandleState<C>> {
        states_of(self.kernels@)
    }

    /// The table says of each tracked kernel whether its handle holds a live connection.
    pub proof fn lemma_table_of_handles(self)
        ensures
            self.table() == connected_of(self.handles()),
    {
        lemma_table_of_states(self.kernels@);
    }

    proof fn lemma_table_at(self, i: int)
        requires
            handle_addrs(self.kernels@).no_duplicates(),
            0 <= i < self.kernels@.len(),
        ensures
            self.table().dom().contains(self.kernels@[i].addr@),
            self.table()[self.kernels@[i].addr@] == self.kernels@[i].state is Connected,
    {
        lemma_table_of_at(self.kernels@, i);
    }

    /// An empty table.
    pub fn new() -> (m: Self)
        ensures
            m.table() == Map::<KernelAddrView, bool>::empty(),
            m.handles() == Map::<KernelAddrView, KernelHandleState<C>>::empty(),
    {
        let m = KernelManager { kernels: Vec::new() };
        assert(m.table() =~= Map::<KernelAddrView, bool>::empty());
        assert(m.handles() =~= Map::<KernelAddrView, KernelHandleState<C>>::empty());
        m
    }

    /// Where `addr` stands in the table.
    fn position_of(&self, addr: &KernelAddr) -> (r: Option<usize>)
        ensures
            r is Some ==> r->0 < self.kernels@.len() && self.kernels@[r->0 as int].addr@ == addr@,
            r is None ==> !handle_addrs(self.kernels@).contains(addr@),
    {
        let mut i: usize = 0;
        while i < self.kernels.len()
            invariant
                i <= self.kernels@.len(),
                forall|j: int| 0 <= j < i ==> self.kernels@[j].addr@ != addr@,
            decreases self.kernels@.len() - i,
        {
            if self.kernels[i].addr.same_as(addr) {
                return Some(i);
            }
            i = i + 1;
        }
        proof {
            if handle_addrs(self.kernels@).contains(addr@) {
                let j = choose|j: int| 0 <= j < handle_addrs(self.kernels@).len() && handle_addrs(self.kernels@)[j] == addr@;
                assert(self.kernels@[j].addr@ == addr@);
            }
        }
        None
    }

    /// Whether `addr` is tracked.
    pub fn contains_key(&self, addr: &KernelAddr) -> (b: bool)
        ensures
            b == self.table().dom().contains(addr@),
    {
        proof { use_type_invariant(self); }
        match self.position_of(addr) {
            Some(i) => {
                proof { self.lemma_table_at(i as int); }
                true
            },
            None => false,
        }
    }

    /// The handle tracked for `addr`.
    pub fn get(&self, addr: &KernelAddr) -> (r: Option<&KernelHandle<C>>)
        ensures
            r is Some <==> self.table().dom().contains(addr@),
            r is Some ==> r->0.addr@ == addr@ && self.table()[addr@] == r->0.state is Connected,
            r is Some ==> r->0.state == self.handles()[addr@],
    {
        proof { use_type_invariant(self); }
        match self.position_of(addr) {
            Some(i) => {
                proof {
                    self.lemma_table_at(i as int);
                    lemma_states_of_at(self.kernels@, i as int);
                }
                Some(&self.kernels[i])
            },
            None => None,
        }
    }

    /// Whether `addr` is tracked with a live connection.
    pub fn is_connected(&self, addr: &KernelAddr) -> (b: bool)
        ensures
            b == (self.table().dom().contains(addr@) && self.table()[addr@]),
    {
        match self.get(addr) {
            Some(h) => h.is_connected(),
            None => false,
        }
    }

    /// The tracked addresses.
    pub fn addrs(&self) -> (r: Vec<KernelAddr>)
        ensures
            addr_views(r@).no_duplicates(),
            addr_views(r@).to_set() == self.table().dom(),
    {
        proof { use_type_invariant(self); }
        let mut r: Vec<KernelAddr> = Vec::new();
        let mut i: usize = 0;
        while i < self.kernels.len()
            invariant
                i <= self.kernels@.len(),
                handle_addrs(self.kernels@).no_duplicates(),
                r@.len() == i,
                forall|k: int| 0 <= k < i ==> #[trigger] r@[k]@ == self.kernels@[k].addr@,
            decreases self.kernels@.len() - i,
        {
            let a = self.kernels[i].addr.duplicate();
            r.push(a);
            i = i + 1;
        }
        assert(addr_views(r@) =~= handle_addrs(self.kernels@));
        assert(addr_views(r@).to_set() =~= self.table().dom());
        r
    }

    /// Starts tracking `handle`, replacing any handle with the same address.
    pub fn insert(&mut self, handle: KernelHandle<C>)
        ensures
            final(self).table() == old(self).table().insert(handle.addr@, handle.state is Connected),
            final(self).handles() == old(self).handles().insert(handle.addr@, handle.state),
    {
        proof { use_type_invariant(&*self); }
        let ghost st = handle.state;
        let ghost a = handle.addr@;
        let ghost c = handle.state is Connected;
        let ghost old_k = self.kernels@;
        let pos = self.position_of(&handle.addr);
        let ghost idx: int = match pos { Some(i) => i as int, None => old_k.len() as int };
        let mut ks: Vec<KernelHandle<C>> = Vec::new();
        std::mem::swap(&mut ks, &mut self.kernels);
        match pos {
            Some(i) => {
                ks.set(i, handle);
                proof {
                    assert(handle_addrs(ks@) =~= handle_addrs(old_k).update(i as int, a));
                    assert(handle_addrs(ks@) =~= handle_addrs(old_k));
                }
            },
            None => {
                ks.push(handle);
                proof {
                    assert(handle_addrs(ks@) =~= handle_addrs(old_k).push(a));
                    assert forall|x: int, y: int| 0 <= x < handle_addrs(ks@).len() && 0 <= y
                        < handle_addrs(ks@).len() && x != y implies handle_addrs(ks@)[x]
                        != handle_addrs(ks@)[y] by {
                        if x == old_k.len() {
                            assert(handle_addrs(old_k)[y] == handle_addrs(ks@)[y]);
                        } else if y == old_k.len() {
                            assert(handle_addrs(old_k)[x] == handle_addrs(ks@)[x]);
                        }
                    }
                }
            },
        }
        proof {
            assert(ks@[idx].addr@ == a && (ks@[idx].state is Connected) == c);
            assert(forall|j: int| 0 <= j < ks@.len() && j != idx ==> ks@[j] == old_k[j]);
            assert(ks@.len() == old_k.len() || (ks@.len() == old_k.len() + 1 && idx == old_k.len()));
            assert(idx < old_k.len() ==> old_k[idx].addr@ == a);
            assert(handle_addrs(ks@).no_duplicates());
        }
        self.kernels = ks;
        proof {
            let m = old(self).table().insert(a, c);
            let nk = self.kernels@;
            assert forall|j: int| 0 <= j < nk.len() implies m.dom().contains(#[trigger] nk[j].addr@)
                && m[nk[j].addr@] == nk[j].state is Connected by {
                if j != idx {
                    assert(nk[j] == old_k[j]);
                    lemma_table_of_at(old_k, j);
                    if idx < old_k.len() {
                        assert(handle_addrs(old_k)[j] != handle_addrs(old_k)[idx]);
                    } else {
                        assert(!handle_addrs(old_k).contains(a));
                        assert(handle_addrs(old_k)[j] == old_k[j].addr@);
                    }
                }
            }
            assert forall|x: KernelAddrView| m.dom().contains(x) implies exists|j: int|
                0 <= j < nk.len() && #[trigger] nk[j].addr@ == x by {
                if x == a {
                    assert(nk[idx].addr@ == x);
                } else {
                    let j = choose|j: int| 0 <= j < handle_addrs(old_k).len() && handle_addrs(old_k)[j] == x;
                    assert(handle_addrs(old_k)[j] == old_k[j].addr@);
                    assert(j != idx);
                    assert(nk[j] == old_k[j]);
                }
            }
            lemma_table_of_ext(nk, m);
            let ms = old(self).handles().insert(a, st);
            assert(nk[idx].state == st);
            assert forall|j: int| 0 <= j < nk.len() implies ms.dom().contains(#[trigger] nk[j].addr@)
                && ms[nk[j].addr@] == nk[j].state by {
                if j != idx {
                    assert(nk[j] == old_k[j]);
                    lemma_states_of_at(old_k, j);
                    if idx < old_k.len() {
                        assert(handle_addrs(old_k)[j] != handle_addrs(old_k)[idx]);
                    } else {
                        assert(handle_addrs(old_k)[j] == old_k[j].addr@);
                    }
                }
            }
            assert forall|x: KernelAddrView| ms.dom().contains(x) implies exists|j: int|
                0 <= j < nk.len() && #[trigger] nk[j].addr@ == x by {
                if x == a {
                    assert(nk[idx].addr@ == x);
                } else {
                    let j = choose|j: int| 0 <= j < handle_addrs(old_k).len() && handle_addrs(old_k)[j] == x;
                    assert(handle_addrs(old_k)[j] == old_k[j].addr@);
                    assert(j != idx);
                    assert(nk[j] == old_k[j]);
                }
            }
            lemma_states_of_ext(nk, ms);
        }
    }

    /// Stops tracking `addr`, dropping its connection.
    pub fn remove_kernel(&mut self, addr: &KernelAddr)
        ensures
            final(self).table() == old(self).table().remove(addr@),
            final(self).handles() == old(self).handles().remove(addr@),
    {
        proof { use_type_invariant(&*self); }
        let ghost old_k = self.kernels@;
        let ghost a = addr@;
        match self.position_of(addr) {
            None => {
                proof {
                    assert(!old(self).table().dom().contains(a));
                    assert(old(self).table().remove(a) =~= old(self).table());
                    assert(!old(self).handles().dom().contains(a));
                    assert(old(self).handles().remove(a) =~= old(self).handles());
                }
            },
            Some(i) => {
                let mut ks: Vec<KernelHandle<C>> = Vec::new();
                std::mem::swap(&mut ks, &mut self.kernels);
                let _removed = ks.remove(i);
                proof {
                    let nk = ks@;
                    let h = handle_addrs(old_k);
                    assert(forall|j: int| 0 <= j < nk.len() ==> nk[j] == old_k[if j < i { j } else { j + 1 }]);
                    assert forall|x: int, y: int| 0 <= x < handle_addrs(nk).len() && 0 <= y
                        < handle_addrs(nk).len() && x != y implies handle_addrs(nk)[x] != handle_addrs(nk)[y] by {
                        let xo = if x < i { x } else { x + 1 };
                        let yo = if y < i { y } else { y + 1 };
                        assert(h[xo] != h[yo]);
                    }
                    let m = old(self).table().remove(a);
                    assert forall|j: int| 0 <= j < nk.len() implies m.dom().contains(#[trigger] nk[j].addr@)
                        && m[nk[j].addr@] == nk[j].state is Connected by {
                        let jo = if j < i { j } else { j + 1 };
                        lemma_table_of_at(old_k, jo);
                        assert(h[jo] != h[i as int]);
                    }
                    assert forall|x: KernelAddrView| m.dom().contains(x) implies exists|j: int|
                        0 <= j < nk.len() && #[trigger] nk[j].addr@ == x by {
                        let jo = choose|jo: int| 0 <= jo < h.len() && h[jo] == x;
                        assert(jo != i);
                        let j = if jo < i { jo } else { jo - 1 };
                        assert(nk[j].addr@ == x);
                    }
                    lemma_table_of_ext(nk, m);
                    let ms = old(self).handles().remove(a);
                    assert forall|j: int| 0 <= j < nk.len() implies ms.dom().contains(#[trigger] nk[j].addr@)
                        && ms[nk[j].addr@] == nk[j].state by {
                        let jo = if j < i { j } else { j + 1 };
                        lemma_states_of_at(old_k, jo);
                        assert(h[jo] != h[i as int]);
                    }
                    assert forall|x: KernelAddrView| ms.dom().contains(x) implies exists|j: int|
                        0 <= j < nk.len() && #[trigger] nk[j].addr@ == x by {
                        let jo = choose|jo: int| 0 <= jo < h.len() && h[jo] == x;
                        assert(jo != i);
                        let j = if jo < i { jo } else { jo - 1 };
                        assert(nk[j].addr@ == x);
                    }
                    lemma_states_of_ext(nk, ms);
                }
                self.kernels = ks;
            },
        }
    }

    /// Marks `addr` as tracked without a live connection, dropping its connection.
    pub fn disconnect_kernel(&mut self, addr: &KernelAddr)
        ensures
            old(self).table().dom().contains(addr@) ==> final(self).table() == old(self).table().insert(addr@, false),
            !old(self).table().dom().contains(addr@) ==> final(self).table() == old(self).table(),
            old(self).handles().dom().contains(addr@) ==> final(self).handles()
                == old(self).handles().insert(addr@, KernelHandleState::Disconnected),
            !old(self).handles().dom().contains(addr@) ==> final(self).handles() == old(self).handles(),
    {
        proof {
            old(self).lemma_table_of_handles();
        }
        if self.contains_key(addr) {
            let h = KernelHandle::new_disconnected(addr.duplicate());
            self.insert(h);
        }
    }

    /// Stops tracking every kernel, dropping all connections.
    pub fn shutdown_all(&mut self)
        ensures
            final(self).table() == Map::<KernelAddrView, bool>::empty(),
            final(self).handles() == Map::<KernelAddrView, KernelHandleState<C>>::empty(),
    {
        self.kernels = Vec::new();
        assert(self.table() =~= Map::<KernelAddrView, bool>::empty());
        assert(self.handles() =~= Map::<KernelAddrView, KernelHandleState<C>>::empty());
    }

    /// Splits `addrs`, in order, into the kernels to call and the
    /// `KernelNotConnected` results of those that cannot be called.
    pub fn split_by_connection(&self, addrs: &[KernelAddr]) -> (d: KernelDispatch)
        ensures
            addr_views(d.calls@) == live_part(self.table(), addr_views(addrs@)),
            result_addrs(d.results@) == dead_part(self.table(), addr_views(addrs@)),
            all_not_connected(d.results@),
    {
        let mut calls: Vec<KernelAddr> = Vec::new();
        let mut results: Vec<(KernelAddr, Result<(), KernelGrpcConnectionError>)> = Vec::new();
        let mut i: usize = 0;
        while i < addrs.len()
            invariant
                i <= addrs@.len(),
                addr_views(calls@) == live_part(self.table(), addr_views(addrs@).take(i as int)),
                result_addrs(results@) == dead_part(self.table(), addr_views(addrs@).take(i as int)),
                all_not_connected(results@),
            decreases addrs@.len() - i,
        {
            let ghost t = addr_views(addrs@).take(i + 1);
            proof {
                assert(t.drop_last() =~= addr_views(addrs@).take(i as int));
                assert(t.last() == addrs@[i as int]@);
            }
            let ghost pc = calls@;
            let ghost pr = results@;
            if self.is_connected(&addrs[i]) {
                calls.push(addrs[i].duplicate());
                assert(addr_views(calls@) =~= addr_views(pc).push(addrs@[i as int]@));
                assert(result_addrs(results@) =~= result_addrs(pr));
            } else {
                results.push((addrs[i].duplicate(), Err(KernelGrpcConnectionError::KernelNotConnected)));
                assert(result_addrs(results@) =~= result_addrs(pr).push(addrs@[i as int]@));
                assert(addr_views(calls@) =~= addr_views(pc));
            }
            i = i + 1;
        }
        assert(addr_views(addrs@).take(addrs@.len() as int) =~= addr_views(addrs@));
        KernelDispatch { calls, results }
    }

    /// Preparing a configuration on selected kernels: each selected address once,
    /// called when live, answered `KernelNotConnected` otherwise.
    pub fn prepare_config_for(&self, kernel_addrs: &[KernelAddr]) -> (d: KernelDispatch)
        ensures
            addr_views(d.calls@) == live_part(self.table(), dedup_addrs(addr_views(kernel_addrs@))),
            result_addrs(d.results@) == dead_part(self.table(), dedup_addrs(addr_views(kernel_addrs@))),
            all_not_connected(d.results@),
    {
        let selected = dedup_kernel_addrs(kernel_addrs);
        self.split_by_connection(selected.as_slice())
    }

    /// Committing a prepared configuration on selected kernels: chosen as for preparing.
    pub fn commit_config_for(&self, kernel_addrs: &[KernelAddr]) -> (d: KernelDispatch)
        ensures
            addr_views(d.calls@) == live_part(self.table(), dedup_addrs(addr_views(kernel_addrs@))),
            result_addrs(d.results@) == dead_part(self.table(), dedup_addrs(addr_views(kernel_addrs@))),
            all_not_connected(d.results@),
    {
        let selected = dedup_kernel_addrs(kernel_addrs);
        self.split_by_connection(selected.as_slice())
    }

    /// Aborting a prepared configuration on selected kernels: every position of
    /// `kernel_addrs` in order, duplicates included.
    pub fn abort_config_for(&self, kernel_addrs: &[KernelAddr]) -> (d: KernelDispatch)
        ensures
            addr_views(d.calls@) == live_part(self.table(), addr_views(kernel_addrs@)),
            result_addrs(d.results@) == dead_part(self.table(), addr_views(kernel_addrs@)),
            all_not_connected(d.results@),
    {
        self.split_by_connection(kernel_addrs)
    }

    /// Preparing a configuration on every tracked kernel.
    pub fn prepare_config(&self) -> (d: KernelDispatch)
        ensures
            addr_views(d.calls@).no_duplicates(),
            result_addrs(d.results@).no_duplicates(),
            forall|a: KernelAddrView| addr_views(d.calls@).contains(a) <==> is_live(self.table(), a),
            forall|a: KernelAddrView| result_addrs(d.results@).contains(a)
                <==> (self.table().dom().contains(a) && !is_live(self.table(), a)),
            all_not_connected(d.results@),
            (addr_views(d.calls@) + result_addrs(d.results@)).no_duplicates(),
            (addr_views(d.calls@) + result_addrs(d.results@)).to_set() == self.table().dom(),
    {
        let addrs = self.addrs();
        let d = self.prepare_config_for(addrs.as_slice());
        proof {
            let v = addr_views(addrs@);
            lemma_dedup_addrs(v);
            lemma_parts(self.table(), v);
            assert forall|a: KernelAddrView| v.contains(a) <==> self.table().dom().contains(a) by {
                assert(v.to_set().contains(a) == v.contains(a));
            }
        }
        proof {
            lemma_one_answer_per_kernel(self.table(), addr_views(d.calls@), result_addrs(d.results@));
        }
        d
    }

    /// Committing a prepared configuration on every tracked kernel.
    pub fn commit_config(&self) -> (d: KernelDispatch)
        ensures
            addr_views(d.calls@).no_duplicates(),
            result_addrs(d.results@).no_duplicates(),
            forall|a: KernelAddrView| addr_views(d.calls@).contains(a) <==> is_live(self.table(), a),
            forall|a: KernelAddrView| result_addrs(d.results@).contains(a)
                <==> (self.table().dom().contains(a) && !is_live(self.table(), a)),
            all_not_connected(d.results@),
            (addr_views(d.calls@) + result_addrs(d.results@)).no_duplicates(),
            (addr_views(d.calls@) + result_addrs(d.results@)).to_set() == self.table().dom(),
    {
        let addrs = self.addrs();
        let d = self.commit_config_for(addrs.as_slice());
        proof {
            let v = addr_views(addrs@);
            lemma_dedup_addrs(v);
            lemma_parts(self.table(), v);
            assert forall|a: KernelAddrView| v.contains(a) <==> self.table().dom().contains(a) by {
                assert(v.to_set().contains(a) == v.contains(a));
            }
        }
        proof {
            lemma_one_answer_per_kernel(self.table(), addr_views(d.calls@), result_addrs(d.results@));
        }
        d
    }

    /// Asking every tracked kernel for its state: the kernels with a live connection are
    /// asked, the others are reported disconnected.
    pub fn get_kernel_states(&self) -> (d: KernelDispatch)
        ensures
            addr_views(d.calls@).no_duplicates(),
            result_addrs(d.results@).no_duplicates(),
            forall|a: KernelAddrView| addr_views(d.calls@).contains(a) <==> is_live(self.table(), a),
            forall|a: KernelAddrView| result_addrs(d.results@).contains(a)
                <==> (self.table().dom().contains(a) && !is_live(self.table(), a)),
            all_not_connected(d.results@),
            (addr_views(d.calls@) + result_addrs(d.results@)).no_duplicates(),
            (addr_views(d.calls@) + result_addrs(d.results@)).to_set() == self.table().dom(),
    {
        let addrs = self.addrs();
        let d = self.prepare_config_for(addrs.as_slice());
        proof {
            let v = addr_views(addrs@);
            lemma_dedup_addrs(v);
            lemma_parts(self.table(), v);
            assert forall|a: KernelAddrView| v.contains(a) <==> self.table().dom().contains(a) by {
                assert(v.to_set().contains(a) == v.contains(a));
            }
        }
        proof {
            lemma_one_answer_per_kernel(self.table(), addr_views(d.calls@), result_addrs(d.results@));
        }
        d
    }

    /// Pushing a configuration directly: every live kernel is called, the others are skipped.
    pub fn update_config(&self) -> (calls: Vec<KernelAddr>)
        ensures
            addr_views(calls@).no_duplicates(),
            forall|a: KernelAddrView| addr_views(calls@).contains(a) <==> is_live(self.table(), a),
    {
        let d = self.prepare_config();
        d.calls
    }

    /// Removes each address of `to_remove`, then tracks each handle of `added` (the first
    /// handle of an address that occurs twice is the one kept). Kernels neither removed nor
    /// added keep their handles as they were.
    pub fn apply_refresh(&mut self, to_remove: &[KernelAddr], added: Vec<KernelHandle<C>>)
        ensures
            final(self).handles() == old(self).handles().remove_keys(addr_views(to_remove@).to_set())
                .union_prefer_right(states_first_wins(added@)),
            final(self).table() == old(self).table().remove_keys(addr_views(to_remove@).to_set())
                .union_prefer_right(connected_of(states_first_wins(added@))),
            final(self).table().dom() == old(self).table().dom().difference(addr_views(to_remove@).to_set())
                .union(handle_addrs(added@).to_set()),
    {
        let ghost start = self.handles();
        let ghost rm = addr_views(to_remove@);
        let mut i: usize = 0;
        while i < to_remove.len()
            invariant
                i <= to_remove@.len(),
                rm == addr_views(to_remove@),
                self.handles() == start.remove_keys(rm.take(i as int).to_set()),
            decreases to_remove@.len() - i,
        {
            let ghost before = self.handles();
            self.remove_kernel(&to_remove[i]);
            proof {
                let t = rm.take(i + 1);
                assert(t =~= rm.take(i as int).push(to_remove@[i as int]@));
                lemma_push_contains(rm.take(i as int), to_remove@[i as int]@);
                assert(self.handles() =~= start.remove_keys(t.to_set()));
            }
            i = i + 1;
        }
        assert(rm.take(to_remove@.len() as int) =~= rm);
        let ghost mid = self.handles();
        let mut rest = added;
        let ghost all = rest@;
        proof {
            assert(all.subrange(all.len() as int, all.len() as int) =~= Seq::<KernelHandle<C>>::empty());
            assert(mid.union_prefer_right(states_first_wins(all.subrange(all.len() as int, all.len() as int))) =~= mid);
        }
        while rest.len() > 0
            invariant
                rest@.len() <= all.len(),
                rest@ == all.take(rest@.len() as int),
                self.handles() == mid.union_prefer_right(states_first_wins(all.subrange(rest@.len() as int, all.len() as int))),
            decreases rest@.len(),
        {
            let ghost len = rest@.len();
            let h = rest.pop().unwrap();
            let ghost hv = h.addr@;
            let ghost hs = h.state;
            assert(h == all[len - 1]);
            self.insert(h);
            proof {
                let t = all.subrange(len - 1, all.len() as int);
                let u = all.subrange(len as int, all.len() as int);
                assert(t.drop_first() =~= u);
                assert(t[0] == all[len - 1]);
                assert(states_first_wins(t) == states_first_wins(u).insert(hv, hs));
                assert(self.handles() =~= mid.union_prefer_right(states_first_wins(t)));
                assert(rest@ =~= all.take(rest@.len() as int));
            }
        }
        assert(all.subrange(0, all.len() as int) =~= all);
        proof {
            let w = states_first_wins(all);
            let r = rm.to_set();
            assert(self.handles() == start.remove_keys(r).union_prefer_right(w));
            old(self).lemma_table_of_handles();
            self.lemma_table_of_handles();
            assert(self.table() =~= old(self).table().remove_keys(r).union_prefer_right(connected_of(w)));
            lemma_states_first_wins_dom(all);
            assert(self.table().dom() =~= old(self).table().dom().difference(r).union(handle_addrs(all).to_set()));
        }
    }
}

impl MapKey for KernelAddr {
    type KeyView = KernelAddrView;

    open spec fn key_view(&self) -> KernelAddrView {
        self@
    }

    /// Socket addresses come first; addresses of one kind go by their texts.
    open spec fn key_lt(a: KernelAddrView, b: KernelAddrView) -> bool {
        match (a, b) {
            (KernelAddrView::Uds(x), KernelAddrView::Uds(y)) => crate::order::text_lt(x, y),
            (KernelAddrView::Uds(_), KernelAddrView::Grpc(_)) => true,
            (KernelAddrView::Grpc(x), KernelAddrView::Grpc(y)) => crate::order::text_lt(x, y),
            (KernelAddrView::Grpc(_), KernelAddrView::Uds(_)) => false,
        }
    }

    proof fn lemma_key_lt_irreflexive(a: KernelAddrView) {
        match a {
            KernelAddrView::Uds(x) => crate::order::lemma_text_lt_irreflexive(x),
            KernelAddrView::Grpc(x) => crate::order::lemma_text_lt_irreflexive(x),
        }
    }

    proof fn lemma_key_lt_transitive(a: KernelAddrView, b: KernelAddrView, c: KernelAddrView) {
        match (a, b, c) {
            (KernelAddrView::Uds(x), KernelAddrView::Uds(y), KernelAddrView::Uds(z)) =>
                crate::order::lemma_text_lt_transitive(x, y, z),
            (KernelAddrView::Grpc(x), KernelAddrView::Grpc(y), KernelAddrView::Grpc(z)) =>
                crate::order::lemma_text_lt_transitive(x, y, z),
            _ => {},
        }
    }

    proof fn lemma_key_lt_total(a: KernelAddrView, b: KernelAddrView) {
        match (a, b) {
            (KernelAddrView::Uds(x), KernelAddrView::Uds(y)) => crate::order::lemma_text_lt_total(x, y),
            (KernelAddrView::Grpc(x), KernelAddrView::Grpc(y)) => crate::order::lemma_text_lt_total(x, y),
            _ => {},
        }
    }

    fn key_less(&self, other: &Self) -> (b: bool) {
        match (self, other) {
            (KernelAddr::Uds(x), KernelAddr::Uds(y)) => crate::order::text_less(x.as_str(), y.as_str()),
            (KernelAddr::Uds(_), KernelAddr::Grpc(_)) => true,
            (KernelAddr::Grpc(x), KernelAddr::Grpc(y)) => crate::order::text_less(x.as_str(), y.as_str()),
            (KernelAddr::Grpc(_), KernelAddr::Uds(_)) => false,
        }
    }

    fn same_key(&self, other: &Self) -> (b: bool) {
        self.same_as(other)
    }

    fn copy_key(&self) -> (r: Self) {
        self.duplicate()
    }
}

/// What is known of a kernel's state: not connected, the state `S` it reported, or the
/// message of the error met while asking.
#[derive(Debug)]
pub enum KernelConnectionAndState<S> {
    Disconnected,
    Connected(S),
    FetchError(String),
}

/// The states of the kernels, by address: each disconnected kernel, then the answer of each
/// kernel asked (a later entry for an address replacing an earlier one).
pub open spec fn states_fold<S>(
    disconnected: Seq<KernelAddr>,
    fetched: Seq<(KernelAddr, Result<S, String>)>,
) -> Map<KernelAddrView, KernelConnectionAndState<S>>
    decreases fetched.len(),
{
    if fetched.len() == 0 {
        Map::new(|a: KernelAddrView| addr_views(disconnected).contains(a), |a: KernelAddrView| KernelConnectionAndState::Disconnected)
    } else {
        let last = fetched.last();
        states_fold(disconnected, fetched.drop_last()).insert(last.0@, match last.1 {
            Ok(st) => KernelConnectionAndState::Connected(st),
            Err(e) => KernelConnectionAndState::FetchError(e),
        })
    }
}

/// The states of the kernels from the disconnected ones and the answers of those asked.
pub fn kernel_states<S>(
    disconnected: Vec<KernelAddr>,
    fetched: Vec<(KernelAddr, Result<S, String>)>,
) -> (r: KeyedVec<KernelAddr, KernelConnectionAndState<S>>)
    ensures
        r.map() == states_fold(disconnected@, fetched@),
{
    let ghost d = disconnected@;
    let ghost f = fetched@;
    let mut r: KeyedVec<KernelAddr, KernelConnectionAndState<S>> = KeyedVec::new();
    let mut i: usize = 0;
    while i < disconnected.len()
        invariant
            i <= disconnected@.len(),
            disconnected@ == d,
            r.map() == Map::new(|a: KernelAddrView| addr_views(d.take(i as int)).contains(a),
                |a: KernelAddrView| KernelConnectionAndState::<S>::Disconnected),
        decreases disconnected@.len() - i,
    {
        r.insert(disconnected[i].duplicate(), KernelConnectionAndState::Disconnected);
        proof {
            let t = addr_views(d.take(i + 1));
            assert(t =~= addr_views(d.take(i as int)).push(d[i as int]@));
            lemma_push_contains(addr_views(d.take(i as int)), d[i as int]@);
            assert(r.map() =~= Map::new(|a: KernelAddrView| addr_views(d.take(i + 1)).contains(a),
                |a: KernelAddrView| KernelConnectionAndState::<S>::Disconnected));
        }
        i = i + 1;
    }
    assert(d.take(d.len() as int) =~= d);
    assert(r.map() == states_fold(d, f.take(0))) by {
        assert(f.take(0) =~= Seq::<(KernelAddr, Result<S, String>)>::empty());
    }
    let mut rest = fetched;
    let n = rest.len();
    while rest.len() > 0
        invariant
            rest@.len() <= n,
            n == f.len(),
            rest@ == f.subrange(n - rest@.len(), n as int),
            r.map() == states_fold(d, f.take(n - rest@.len())),
        decreases rest@.len(),
    {
        let ghost k = n - rest@.len();
        let (addr, res) = rest.remove(0);
        proof {
            assert(rest@ =~= f.subrange(k + 1, n as int));
            let t = f.take(k + 1);
            assert(t.drop_last() =~= f.take(k));
            assert(t.last() == f[k]);
        }
        let st = match res {
            Ok(s) => KernelConnectionAndState::Connected(s),
            Err(e) => KernelConnectionAndState::FetchError(e),
        };
        r.insert(addr, st);
    }
    assert(f.take(n as int) =~= f);
    r
}

} // verus!

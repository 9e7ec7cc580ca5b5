use vstd::prelude::*;
use vstd::string::StringSliceAdditionalSpecFns;
use crate::error::{PingError, PingResult};
use crate::family::{AddrFamily, FamilyCodes};
use crate::item::{
    Field, FIELD_CAPACITY, PingItem, PingItemView, RECORD_FIELDS, record_field, record_field_at,
    decoded_records, field_bytes, item_views, push_record,
};
use crate::options::{OptionSet, PingOption};
use crate::wire::{
    ByteOrder, bytes4, bytes8, c_string, pattern32, write_i32, write_u64,
};

verus! {

/// The packet engine a session drives: it opens the sockets, sends the echo
/// requests, waits for replies and keeps one record per host.
///
/// Statuses are 0 (or, for a send, a non-negative count of replies) on
/// success and negative or non-zero on failure; after a failure `last_error` describes it.
/// Nothing is assumed of what an engine returns.
pub trait EchoEngine {
    /// Carries out one state-changing request: the status it ends with.
    fn execute(&mut self, request: &EngineRequest) -> i32;

    /// The message of the engine's last failure.
    fn last_error(&mut self) -> String;

    /// Moves to the first record of the last send; false where there is none.
    fn first_record(&mut self) -> bool;

    /// Moves to the next record; false where the records are exhausted.
    fn next_record(&mut self) -> bool;

    /// The bytes the engine writes for field `field` of the current record into
    /// a buffer of `capacity` bytes; `None` where it reports a failure.
    fn read_field(&mut self, field: u32, capacity: usize) -> Option<Vec<u8>>;
}

/// A request that changes the engine's state, as handed to the engine.
pub enum EngineRequest {
    /// Set the option with this engine tag to the value laid out in `value`.
    SetOption { option: u32, value: Vec<u8> },
    /// Resolve a NUL-terminated host name or address and target it.
    AddHost { name: Vec<u8> },
    /// Stop targeting a NUL-terminated host name or address.
    RemoveHost { name: Vec<u8> },
    /// Send one echo request to every target and wait for the replies or
    /// the timeout.
    Send,
}

impl View for EngineRequest {
    type V = Request;

    open spec fn view(&self) -> Request {
        match self {
            EngineRequest::SetOption { option, value } => Request::SetOption {
                option: *option,
                value: value@,
            },
            EngineRequest::AddHost { name } => Request::AddHost { name: name@ },
            EngineRequest::RemoveHost { name } => Request::RemoveHost { name: name@ },
            EngineRequest::Send => Request::Send,
        }
    }
}

/// What an [`EngineRequest`] says.
pub ghost enum Request {
    SetOption { option: u32, value: Seq<u8> },
    AddHost { name: Seq<u8> },
    RemoveHost { name: Seq<u8> },
    Send,
}

/// A request handed to the engine, with the status it answered.
pub ghost struct EngineCall {
    pub request: Request,
    pub status: i32,
}

/// The first `k` field queries of a record: each field in reading order,
/// with a buffer of `FIELD_CAPACITY` bytes.
pub open spec fn record_queries(k: int) -> Seq<(u32, usize)> {
    Seq::new(k as nat, |j: int| (record_field(j).spec_code(), FIELD_CAPACITY))
}

/// The field queries of a walk over records, the `i`-th record taking the
/// first `counts[i]` queries of a record.
pub open spec fn walk_queries(counts: Seq<nat>) -> Seq<(u32, usize)>
    decreases counts.len(),
{
    if counts.len() == 0 {
        Seq::empty()
    } else {
        walk_queries(counts.drop_last()) + record_queries(counts.last() as int)
    }
}

/// Each record read took between one and all field queries, and all of them
/// where it read in full.
pub open spec fn counts_match(counts: Seq<nat>, reads: Seq<Option<Seq<Seq<u8>>>>) -> bool {
    &&& counts.len() == reads.len()
    &&& forall|i: int|
        0 <= i < counts.len() ==> 1 <= #[trigger] counts[i] <= RECORD_FIELDS && (reads[i] is Some
            ==> counts[i] == RECORD_FIELDS)
}

/// `s` without the last occurrence of `x`; `s` itself where `x` does not
/// occur. On a registry, which holds each name once, that is `s` without `x`.
pub open spec fn without_last(s: Seq<Seq<char>>, x: Seq<char>) -> Seq<Seq<char>>
    decreases s.len(),
{
    if s.len() == 0 {
        s
    } else if s.last() == x {
        s.drop_last()
    } else {
        without_last(s.drop_last(), x).push(s.last())
    }
}

proof fn lemma_without_last_at(s: Seq<Seq<char>>, x: Seq<char>, k: int)
    requires
        0 <= k < s.len(),
        s[k] == x,
        forall|j: int| k < j < s.len() ==> s[j] != x,
    ensures
        without_last(s, x) == s.remove(k),
    decreases s.len(),
{
    if k == s.len() - 1 {
        assert(s.drop_last() =~= s.remove(k));
    } else {
        lemma_without_last_at(s.drop_last(), x, k);
        assert(s.remove(k) =~= s.drop_last().remove(k).push(s.last()));
    }
}

proof fn lemma_without_last_absent(s: Seq<Seq<char>>, x: Seq<char>)
    requires
        forall|j: int| 0 <= j < s.len() ==> s[j] != x,
    ensures
        without_last(s, x) == s,
    decreases s.len(),
{
    if s.len() > 0 {
        lemma_without_last_absent(s.drop_last(), x);
        assert(s.drop_last().push(s.last()) =~= s);
    }
}

/// The registry `s` once `x` is added: unchanged where `x` is already in it.
pub open spec fn with_host(s: Seq<Seq<char>>, x: Seq<char>) -> Seq<Seq<char>> {
    if s.contains(x) {
        s
    } else {
        s.push(x)
    }
}

/// Adding a host that is not registered and then removing the same name
/// leaves the registry as it was before.
pub proof fn lemma_add_then_remove(hosts: Seq<Seq<char>>, name: Seq<char>)
    requires
        !hosts.contains(name),
    ensures
        without_last(with_host(hosts, name), name) == hosts,
{
    assert(hosts.push(name).drop_last() =~= hosts);
}

/// The index of the last string of `v` equal to `s`.
fn last_index_of(v: &Vec<String>, s: &String) -> (r: Option<usize>)
    ensures
        match r {
            Some(k) => k < v@.len() && v@[k as int]@ == s@ && forall|j: int|
                k < j < v@.len() ==> v@[j]@ != s@,
            None => forall|j: int| 0 <= j < v@.len() ==> v@[j]@ != s@,
        },
{
    let mut i: usize = v.len();
    while i > 0
        invariant
            i <= v@.len(),
            forall|j: int| i <= j < v@.len() ==> v@[j]@ != s@,
        decreases i,
    {
        if v[i - 1] == *s {
            return Some(i - 1);
        }
        i = i - 1;
    }
    None
}

/// A session: one engine, the options it was given, the hosts it targets,
/// and the records of the last send.
pub struct Ping<E> {
    engine: E,
    codes: FamilyCodes,
    order: ByteOrder,
    options: OptionSet,
    source: Option<String>,
    device: Option<String>,
    hosts: Vec<String>,
    results: Vec<PingItem>,
    calls: Ghost<Seq<EngineCall>>,
    reads: Ghost<Seq<Option<Seq<Seq<u8>>>>>,
    walk: Ghost<Seq<bool>>,
    errors: Ghost<Seq<Seq<char>>>,
    queries: Ghost<Seq<(u32, usize)>>,
    asked: Ghost<Seq<nat>>,
}

impl<E: EchoEngine> Ping<E> {
    /// The hosts the engine accepted and still targets, in order of addition.
    pub closed spec fn host_list(&self) -> Seq<Seq<char>> {
        self.hosts@.map_values(|s: String| s@)
    }

    /// The options the engine accepted.
    pub closed spec fn option_set(&self) -> OptionSet {
        self.options
    }

    /// The source address and the outgoing device the engine accepted, if any.
    pub closed spec fn text_options(&self) -> (Option<Seq<char>>, Option<Seq<char>>) {
        (
            match self.source {
                Some(s) => Some(s@),
                None => None,
            },
            match self.device {
                Some(d) => Some(d@),
                None => None,
            },
        )
    }

    /// The records of the last send, in the engine's order.
    pub closed spec fn results_view(&self) -> Seq<PingItemView> {
        item_views(self.results@)
    }

    /// What the engine answered for each record read after the last send.
    pub closed spec fn record_reads(&self) -> Seq<Option<Seq<Seq<u8>>>> {
        self.reads@
    }

    /// The engine's answers, after the last send, to "is there a first
    /// record" and then to each "is there a next record".
    pub closed spec fn record_walk(&self) -> Seq<bool> {
        self.walk@
    }

    /// The records were read until the engine had no more, or `limit`
    /// records were held, or one record could not be read or decoded;
    /// `held` records were kept.
    pub open spec fn walk_complete(
        walk: Seq<bool>,
        reads: Seq<Option<Seq<Seq<u8>>>>,
        held: nat,
        limit: nat,
    ) -> bool {
        &&& walk.len() >= 1
        &&& forall|i: int| 0 <= i < walk.len() - 1 ==> #[trigger] walk[i]
        &&& {
            ||| reads.len() + 1 == walk.len() && held == reads.len() && (!walk.last()
                || reads.len() == limit)
            ||| reads.len() == walk.len() && walk.last() && held + 1 == reads.len()
        }
    }

    /// Every message the engine gave for a failure, in order.
    pub closed spec fn error_log(&self) -> Seq<Seq<char>> {
        self.errors@
    }

    /// `e` is the engine's error, holding the message it gave for the failure
    /// just now, which `self` logged after `prev`.
    pub open spec fn reports_engine_error(&self, prev: &Self, e: PingError) -> bool {
        &&& self.error_log().len() == prev.error_log().len() + 1
        &&& self.error_log().drop_last() == prev.error_log()
        &&& e matches PingError::LibOpingError(m) && m@ == self.error_log().last()
    }

    /// Every field query put to the engine: its tag and buffer capacity.
    pub closed spec fn field_queries(&self) -> Seq<(u32, usize)> {
        self.queries@
    }

    /// For each record read after the last send, how many field queries it
    /// took: all of them, or up to the first that failed.
    pub closed spec fn query_counts(&self) -> Seq<nat> {
        self.asked@
    }

    /// Every state-changing request handed to the engine, in order.
    pub closed spec fn call_log(&self) -> Seq<EngineCall> {
        self.calls@
    }

    pub closed spec fn family_codes(&self) -> FamilyCodes {
        self.codes
    }

    pub closed spec fn byte_order(&self) -> ByteOrder {
        self.order
    }

    /// The family codes differ, and no host is registered twice.
    pub open spec fn wf(&self) -> bool {
        &&& self.family_codes().wf()
        &&& self.host_list().no_duplicates()
    }

    /// `self` came from `prev` by exactly one more request, `req`.
    pub open spec fn made_call(&self, prev: &Self, req: Request) -> bool {
        &&& self.call_log().len() == prev.call_log().len() + 1
        &&& self.call_log().drop_last() == prev.call_log()
        &&& self.call_log().last().request == req
    }

    /// The status of the last request.
    pub open spec fn last_status(&self) -> i32 {
        self.call_log().last().status
    }

    /// What `self` and `prev` share whatever a call did: the platform's
    /// family codes and byte order.
    pub open spec fn same_platform(&self, prev: &Self) -> bool {
        &&& self.family_codes() == prev.family_codes()
        &&& self.byte_order() == prev.byte_order()
    }

    /// Takes ownership of an engine; no option set, no host, no record.
    pub fn new(engine: E) -> (r: Ping<E>)
        ensures
            r.wf(),
            r.option_set() == OptionSet::spec_unset(),
            r.text_options() == (None::<Seq<char>>, None::<Seq<char>>),
            r.host_list() == Seq::<Seq<char>>::empty(),
            r.results_view() == Seq::<PingItemView>::empty(),
            r.call_log() == Seq::<EngineCall>::empty(),
    {
        let r = Ping {
            engine,
            codes: FamilyCodes::native(),
            order: ByteOrder::native(),
            options: OptionSet::unset(),
            source: None,
            device: None,
            hosts: Vec::new(),
            results: Vec::new(),
            calls: Ghost(Seq::empty()),
            reads: Ghost(Seq::empty()),
            walk: Ghost(Seq::empty()),
            errors: Ghost(Seq::empty()),
            queries: Ghost(Seq::empty()),
            asked: Ghost(Seq::empty()),
        };
        assert(r.host_list() =~= Seq::<Seq<char>>::empty());
        assert(r.results_view() =~= Seq::<PingItemView>::empty());
        r
    }

    /// Only the engine changed between `prev` and `self`.
    closed spec fn same_state(&self, prev: &Self) -> bool {
        &&& self.hosts == prev.hosts
        &&& self.options == prev.options
        &&& self.source == prev.source
        &&& self.device == prev.device
        &&& self.results == prev.results
        &&& self.calls == prev.calls
        &&& self.reads == prev.reads
        &&& self.walk == prev.walk
        &&& self.codes == prev.codes
        &&& self.order == prev.order
    }

    /// Hands `request` to the engine and logs it with the status it answered.
    fn issue(&mut self, request: EngineRequest) -> (status: i32)
        ensures
            final(self).call_log() == old(self).call_log().push(
                EngineCall { request: request@, status },
            ),
            final(self).call_log().drop_last() == old(self).call_log(),
            final(self).hosts == old(self).hosts,
            final(self).options == old(self).options,
            final(self).source == old(self).source,
            final(self).device == old(self).device,
            final(self).results == old(self).results,
            final(self).reads == old(self).reads,
            final(self).walk == old(self).walk,
            final(self).errors == old(self).errors,
            final(self).queries == old(self).queries,
            final(self).asked == old(self).asked,
            final(self).codes == old(self).codes,
            final(self).order == old(self).order,
    {
        let status = self.engine.execute(&request);
        self.calls = Ghost(self.calls@.push(EngineCall { request: request@, status }));
        proof {
            assert(self.calls@.drop_last() =~= old(self).calls@);
        }
        status
    }

    /// The engine's failure, with its message.
    fn engine_failure(&mut self) -> (e: PingError)
        ensures
            final(self).reports_engine_error(old(self), e),
            final(self).field_queries() == old(self).field_queries(),
            final(self).query_counts() == old(self).query_counts(),
            final(self).same_state(old(self)),
    {
        let m = self.engine.last_error();
        self.errors = Ghost(self.errors@.push(m@));
        proof {
            assert(self.errors@.drop_last() =~= old(self).errors@);
        }
        PingError::LibOpingError(m)
    }

    /// Hands one option to the engine; on success `next` becomes the option set.
    fn apply_option(&mut self, option: PingOption, value: Vec<u8>, next: OptionSet) -> (r:
        PingResult<()>)
        ensures
            final(self).made_call(old(self), Request::SetOption { option: option.spec_code(), value: value@ }),
            r is Ok <==> final(self).last_status() == 0,
            r is Ok ==> final(self).option_set() == next,
            r is Err ==> final(self).option_set() == old(self).option_set() && final(self).reports_engine_error(old(self), r->Err_0),
            final(self).host_list() == old(self).host_list(),
            final(self).results_view() == old(self).results_view(),
            final(self).text_options() == old(self).text_options(),
            final(self).same_platform(old(self)),
    {
        let status = self.issue(EngineRequest::SetOption { option: option.code(), value });
        if status != 0 {
            return Err(self.engine_failure());
        }
        self.options = next;
        Ok(())
    }

    /// Sets the time to wait for replies, as the bit pattern of an IEEE-754
    /// double in seconds. The other options keep their values.
    pub fn set_timeout(&mut self, seconds_bits: u64) -> (r: PingResult<()>)
        requires
            old(self).wf(),
        ensures
            final(self).wf(),
            final(self).made_call(
                old(self),
                Request::SetOption {
                    option: PingOption::Timeout.spec_code(),
                    value: bytes8(seconds_bits as nat, old(self).byte_order()),
                },
            ),
            r is Ok <==> final(self).last_status() == 0,
            r is Ok ==> final(self).option_set() == old(self).option_set().with_timeout(seconds_bits),
            r is Err ==> final(self).option_set() == old(self).option_set() && final(self).reports_engine_error(old(self), r->Err_0),
            final(self).host_list() == old(self).host_list(),
            final(self).results_view() == old(self).results_view(),
            final(self).text_options() == old(self).text_options(),
            final(self).same_platform(old(self)),
    {
        let value = write_u64(seconds_bits, self.order);
        let next = self.options.with_timeout(seconds_bits);
        self.apply_option(PingOption::Timeout, value, next)
    }

    /// Sets the time-to-live of outgoing packets. The other options keep
    /// their values.
    pub fn set_ttl(&mut self, ttl: i32) -> (r: PingResult<()>)
        requires
            old(self).wf(),
        ensures
            final(self).wf(),
            final(self).made_call(
                old(self),
                Request::SetOption {
                    option: PingOption::Ttl.spec_code(),
                    value: bytes4(pattern32(ttl), old(self).byte_order()),
                },
            ),
            r is Ok <==> final(self).last_status() == 0,
            r is Ok ==> final(self).option_set() == old(self).option_set().with_ttl(ttl),
            r is Err ==> final(self).option_set() == old(self).option_set() && final(self).reports_engine_error(old(self), r->Err_0),
            final(self).host_list() == old(self).host_list(),
            final(self).results_view() == old(self).results_view(),
            final(self).text_options() == old(self).text_options(),
            final(self).same_platform(old(self)),
    {
        let value = write_i32(ttl, self.order);
        let next = self.options.with_ttl(ttl);
        self.apply_option(PingOption::Ttl, value, next)
    }

    /// Sets the address family that host names are resolved to, as the
    /// platform's family code. The other options keep their values.
    pub fn set_addr_family(&mut self, af: AddrFamily) -> (r: PingResult<()>)
        requires
            old(self).wf(),
        ensures
            final(self).wf(),
            final(self).made_call(
                old(self),
                Request::SetOption {
                    option: PingOption::Af.spec_code(),
                    value: bytes4(
                        pattern32(old(self).family_codes().spec_code_of(af)),
                        old(self).byte_order(),
                    ),
                },
            ),
            r is Ok <==> final(self).last_status() == 0,
            r is Ok ==> final(self).option_set() == old(self).option_set().with_family(af),
            r is Err ==> final(self).option_set() == old(self).option_set() && final(self).reports_engine_error(old(self), r->Err_0),
            final(self).host_list() == old(self).host_list(),
            final(self).results_view() == old(self).results_view(),
            final(self).text_options() == old(self).text_options(),
            final(self).same_platform(old(self)),
    {
        let value = write_i32(self.codes.code_of(af), self.order);
        let next = self.options.with_family(af);
        self.apply_option(PingOption::Af, value, next)
    }

    /// Sets the QoS (DSCP and ECN) byte of outgoing packets. The other
    /// options keep their values.
    pub fn set_qos(&mut self, qos: u8) -> (r: PingResult<()>)
        requires
            old(self).wf(),
        ensures
            final(self).wf(),
            final(self).made_call(
                old(self),
                Request::SetOption { option: PingOption::Qos.spec_code(), value: seq![qos] },
            ),
            r is Ok <==> final(self).last_status() == 0,
            r is Ok ==> final(self).option_set() == old(self).option_set().with_qos(qos),
            r is Err ==> final(self).option_set() == old(self).option_set() && final(self).reports_engine_error(old(self), r->Err_0),
            final(self).host_list() == old(self).host_list(),
            final(self).results_view() == old(self).results_view(),
            final(self).text_options() == old(self).text_options(),
            final(self).same_platform(old(self)),
    {
        let value = vec![qos];
        assert(value@ =~= seq![qos]);
        let next = self.options.with_qos(qos);
        self.apply_option(PingOption::Qos, value, next)
    }
    /// Hands a text option to the engine as a NUL-terminated string. A value
    /// that holds a NUL byte is refused before the engine sees it.
    fn apply_text_option(&mut self, option: PingOption, text: &str) -> (r: PingResult<()>)
        ensures
            final(self).option_set() == old(self).option_set(),
            final(self).host_list() == old(self).host_list(),
            final(self).results_view() == old(self).results_view(),
            final(self).same_platform(old(self)),
            final(self).source == old(self).source,
            final(self).device == old(self).device,
            text.spec_bytes().contains(0u8) ==> {
                &&& r matches Err(PingError::NulByteError)
                &&& final(self).call_log() == old(self).call_log()
            },
            !text.spec_bytes().contains(0u8) ==> {
                &&& final(self).made_call(
                    old(self),
                    Request::SetOption {
                        option: option.spec_code(),
                        value: text.spec_bytes().push(0u8),
                    },
                )
                &&& (r is Ok <==> final(self).last_status() == 0)
                &&& r is Err ==> final(self).reports_engine_error(old(self), r->Err_0)
            },
    {
        let value = match c_string(text) {
            Some(b) => b,
            None => return Err(PingError::NulByteError),
        };
        let status = self.issue(EngineRequest::SetOption { option: option.code(), value });
        if status != 0 {
            return Err(self.engine_failure());
        }
        Ok(())
    }

    /// Sets the local address that echo requests are sent from. The other
    /// options keep their values.
    pub fn set_source(&mut self, address: &str) -> (r: PingResult<()>)
        requires
            old(self).wf(),
        ensures
            final(self).wf(),
            final(self).option_set() == old(self).option_set(),
            final(self).host_list() == old(self).host_list(),
            final(self).results_view() == old(self).results_view(),
            final(self).same_platform(old(self)),
            final(self).text_options().1 == old(self).text_options().1,
            r is Ok ==> final(self).text_options().0 == Some(address@),
            r is Err ==> final(self).text_options().0 == old(self).text_options().0,
            address.spec_bytes().contains(0u8) ==> {
                &&& r matches Err(PingError::NulByteError)
                &&& final(self).call_log() == old(self).call_log()
            },
            !address.spec_bytes().contains(0u8) ==> {
                &&& final(self).made_call(
                    old(self),
                    Request::SetOption {
                        option: PingOption::Source.spec_code(),
                        value: address.spec_bytes().push(0u8),
                    },
                )
                &&& (r is Ok <==> final(self).last_status() == 0)
                &&& r is Err ==> final(self).reports_engine_error(old(self), r->Err_0)
            },
    {
        self.apply_text_option(PingOption::Source, address)?;
        self.source = Some(address.to_owned());
        Ok(())
    }

    /// Sets the network device that echo requests leave through. The other
    /// options keep their values.
    pub fn set_device(&mut self, device: &str) -> (r: PingResult<()>)
        requires
            old(self).wf(),
        ensures
            final(self).wf(),
            final(self).option_set() == old(self).option_set(),
            final(self).host_list() == old(self).host_list(),
            final(self).results_view() == old(self).results_view(),
            final(self).same_platform(old(self)),
            final(self).text_options().0 == old(self).text_options().0,
            r is Ok ==> final(self).text_options().1 == Some(device@),
            r is Err ==> final(self).text_options().1 == old(self).text_options().1,
            device.spec_bytes().contains(0u8) ==> {
                &&& r matches Err(PingError::NulByteError)
                &&& final(self).call_log() == old(self).call_log()
            },
            !device.spec_bytes().contains(0u8) ==> {
                &&& final(self).made_call(
                    old(self),
                    Request::SetOption {
                        option: PingOption::Device.spec_code(),
                        value: device.spec_bytes().push(0u8),
                    },
                )
                &&& (r is Ok <==> final(self).last_status() == 0)
                &&& r is Err ==> final(self).reports_engine_error(old(self), r->Err_0)
            },
    {
        self.apply_text_option(PingOption::Device, device)?;
        self.device = Some(device.to_owned());
        Ok(())
    }

    /// Adds a host name or address to the targets. A name that holds a NUL
    /// byte is refused before the engine sees it.
    pub fn add_host(&mut self, hostname: &str) -> (r: PingResult<()>)
        requires
            old(self).wf(),
        ensures
            final(self).wf(),
            final(self).same_platform(old(self)),
            final(self).option_set() == old(self).option_set(),
            final(self).text_options() == old(self).text_options(),
            final(self).results_view() == old(self).results_view(),
            hostname.spec_bytes().contains(0u8) ==> {
                &&& r matches Err(PingError::NulByteError)
                &&& final(self).call_log() == old(self).call_log()
                &&& final(self).host_list() == old(self).host_list()
            },
            !hostname.spec_bytes().contains(0u8) ==> {
                &&& final(self).made_call(
                    old(self),
                    Request::AddHost { name: hostname.spec_bytes().push(0u8) },
                )
                &&& (r is Ok <==> final(self).last_status() == 0)
                &&& r is Ok ==> final(self).host_list() == with_host(old(self).host_list(), hostname@)
                &&& r is Err ==> final(self).host_list() == old(self).host_list()
                    && final(self).reports_engine_error(old(self), r->Err_0)
            },
    {
        let name = match c_string(hostname) {
            Some(b) => b,
            None => return Err(PingError::NulByteError),
        };
        let status = self.issue(EngineRequest::AddHost { name });
        if status != 0 {
            return Err(self.engine_failure());
        }
        let owned = hostname.to_owned();
        let found = last_index_of(&self.hosts, &owned);
        if found.is_none() {
            let ghost before = self.host_list();
            proof {
                assert(!before.contains(hostname@)) by {
                    if before.contains(hostname@) {
                        let j = choose|j: int| 0 <= j < before.len() && before[j] == hostname@;
                        assert(self.hosts@[j]@ == hostname@);
                    }
                }
            }
            self.hosts.push(owned);
            proof {
                assert(self.host_list() =~= before.push(hostname@));
                assert(self.host_list().no_duplicates()) by {
                    assert forall|a: int, b: int|
                        0 <= a < self.host_list().len() && 0 <= b < self.host_list().len() && a
                            != b implies self.host_list()[a] != self.host_list()[b] by {
                        if a < before.len() && b < before.len() {
                            assert(before[a] != before[b]);
                        } else if a < before.len() {
                            assert(before.contains(before[a]));
                        } else {
                            assert(before.contains(before[b]));
                        }
                    }
                }
            }
        } else {
            proof {
                let k = found->Some_0 as int;
                assert(self.host_list()[k] == hostname@);
                assert(self.host_list().contains(hostname@));
            }
        }
        Ok(())
    }

    /// Removes a host name or address from the targets; the registry drops
    /// the last entry with that name. A name that holds a NUL byte is refused
    /// before the engine sees it.
    pub fn remove_host(&mut self, hostname: &str) -> (r: PingResult<()>)
        requires
            old(self).wf(),
        ensures
            final(self).wf(),
            final(self).same_platform(old(self)),
            final(self).option_set() == old(self).option_set(),
            final(self).text_options() == old(self).text_options(),
            final(self).results_view() == old(self).results_view(),
            hostname.spec_bytes().contains(0u8) ==> {
                &&& r matches Err(PingError::NulByteError)
                &&& final(self).call_log() == old(self).call_log()
                &&& final(self).host_list() == old(self).host_list()
            },
            !hostname.spec_bytes().contains(0u8) ==> {
                &&& final(self).made_call(
                    old(self),
                    Request::RemoveHost { name: hostname.spec_bytes().push(0u8) },
                )
                &&& (r is Ok <==> final(self).last_status() == 0)
                &&& r is Ok ==> final(self).host_list() == without_last(
                    old(self).host_list(),
                    hostname@,
                )
                &&& r is Ok ==> !final(self).host_list().contains(hostname@)
                &&& r is Err ==> final(self).host_list() == old(self).host_list()
                    && final(self).reports_engine_error(old(self), r->Err_0)
            },
    {
        let name = match c_string(hostname) {
            Some(b) => b,
            None => return Err(PingError::NulByteError),
        };
        let status = self.issue(EngineRequest::RemoveHost { name });
        if status != 0 {
            return Err(self.engine_failure());
        }
        let owned = hostname.to_owned();
        match last_index_of(&self.hosts, &owned) {
            Some(k) => {
                let ghost before = self.hosts@;
                self.hosts.remove(k);
                proof {
                    let hs = before.map_values(|s: String| s@);
                    lemma_without_last_at(hs, hostname@, k as int);
                    assert(self.host_list() =~= hs.remove(k as int));
                    assert forall|a: int, b: int|
                        0 <= a < self.host_list().len() && 0 <= b < self.host_list().len() && a
                            != b implies self.host_list()[a] != self.host_list()[b] by {
                        let a2 = if a < k { a } else { a + 1 };
                        let b2 = if b < k { b } else { b + 1 };
                        assert(hs[a2] != hs[b2]);
                    }
                    assert(!self.host_list().contains(hostname@)) by {
                        if self.host_list().contains(hostname@) {
                            let a = choose|a: int|
                                0 <= a < self.host_list().len() && self.host_list()[a]
                                    == hostname@;
                            let a2 = if a < k { a } else { a + 1 };
                            assert(hs[a2] == hs[k as int]);
                        }
                    }
                }
            },
            None => {
                proof {
                    lemma_without_last_absent(self.host_list(), hostname@);
                    assert(!self.host_list().contains(hostname@)) by {
                        if self.host_list().contains(hostname@) {
                            let j = choose|j: int|
                                0 <= j < self.host_list().len() && self.host_list()[j]
                                    == hostname@;
                            assert(self.hosts@[j]@ == hostname@);
                        }
                    }
                }
            },
        }
        Ok(())
    }

    /// Asks the engine for one field of its current record, into a buffer of
    /// `FIELD_CAPACITY` bytes.
    fn query_field(&mut self, field: Field) -> (r: Option<Vec<u8>>)
        ensures
            final(self).field_queries() == old(self).field_queries().push(
                (field.spec_code(), FIELD_CAPACITY),
            ),
            final(self).asked == old(self).asked,
            final(self).same_state(old(self)),
    {
        let tag = field.code();
        let capacity = FIELD_CAPACITY;
        let r = self.engine.read_field(tag, capacity);
        self.queries = Ghost(self.queries@.push((tag, capacity)));
        r
    }

    /// Reads the fields of the engine's current record, in reading order;
    /// `None` as soon as the engine fails on one, with no query after it.
    fn read_fields(&mut self) -> (r: Option<Vec<Vec<u8>>>)
        ensures
            r matches Some(f) ==> f@.len() == RECORD_FIELDS,
            final(self).asked@.len() == old(self).asked@.len() + 1,
            final(self).asked@.drop_last() == old(self).asked@,
            1 <= final(self).asked@.last() <= RECORD_FIELDS,
            r is Some ==> final(self).asked@.last() == RECORD_FIELDS,
            final(self).queries@ == old(self).queries@ + record_queries(
                final(self).asked@.last() as int,
            ),
            final(self).same_state(old(self)),
    {
        let mut fields: Vec<Vec<u8>> = Vec::new();
        let mut i: usize = 0;
        while i < RECORD_FIELDS
            invariant
                i <= RECORD_FIELDS,
                fields@.len() == i,
                self.queries@ == old(self).queries@ + record_queries(i as int),
                self.asked == old(self).asked,
                self.same_state(old(self)),
            decreases RECORD_FIELDS - i,
        {
            let field = record_field_at(i);
            let answer = self.query_field(field);
            proof {
                assert(record_queries(i + 1) =~= record_queries(i as int).push(
                    (field.spec_code(), FIELD_CAPACITY),
                ));
                assert(self.queries@ =~= old(self).queries@ + record_queries(i + 1));
            }
            match answer {
                Some(b) => fields.push(b),
                None => {
                    self.asked = Ghost(self.asked@.push((i + 1) as nat));
                    proof {
                        assert(self.asked@.drop_last() =~= old(self).asked@);
                    }
                    return None;
                },
            }
            i = i + 1;
        }
        self.asked = Ghost(self.asked@.push(RECORD_FIELDS as nat));
        proof {
            assert(self.asked@.drop_last() =~= old(self).asked@);
        }
        Some(fields)
    }

    /// Reads the records of the last send into `results`, in the engine's
    /// order, one per registered host at most, and stops at the first record
    /// that cannot be read or decoded.
    fn collect_results(&mut self)
        requires
            old(self).results@.len() == 0,
            old(self).reads@.len() == 0,
            old(self).walk@.len() == 0,
            old(self).asked@.len() == 0,
        ensures
            final(self).field_queries() == old(self).field_queries() + walk_queries(
                final(self).query_counts(),
            ),
            counts_match(final(self).query_counts(), final(self).record_reads()),
            Self::walk_complete(
                final(self).record_walk(),
                final(self).record_reads(),
                final(self).results_view().len(),
                final(self).host_list().len(),
            ),
            final(self).results_view() == decoded_records(
                final(self).record_reads(),
                final(self).family_codes(),
                final(self).byte_order(),
            ),
            final(self).record_reads().len() <= final(self).host_list().len(),
            final(self).results_view().len() <= final(self).record_reads().len(),
            final(self).host_list() == old(self).host_list(),
            final(self).option_set() == old(self).option_set(),
            final(self).text_options() == old(self).text_options(),
            final(self).call_log() == old(self).call_log(),
            final(self).same_platform(old(self)),
    {
        proof {
            assert(item_views(self.results@) =~= decoded_records(self.reads@, self.codes, self.order));
        }
        let mut more = self.engine.first_record();
        self.walk = Ghost(self.walk@.push(more));
        while more && self.results.len() < self.hosts.len()
            invariant
                self.walk@.len() == self.reads@.len() + 1,
                forall|i: int| 0 <= i < self.walk@.len() - 1 ==> #[trigger] self.walk@[i],
                more == self.walk@.last(),
                self.queries@ == old(self).queries@ + walk_queries(self.asked@),
                counts_match(self.asked@, self.reads@),
                self.results@.len() == self.reads@.len(),
                self.reads@.len() <= self.hosts@.len(),
                item_views(self.results@) == decoded_records(self.reads@, self.codes, self.order),
                self.hosts == old(self).hosts,
                self.options == old(self).options,
                self.source == old(self).source,
                self.device == old(self).device,
                self.calls == old(self).calls,
                self.codes == old(self).codes,
                self.order == old(self).order,
            decreases self.hosts@.len() - self.results@.len(),
        {
            let ghost prev_asked = self.asked@;
            let ghost prev_queries = self.queries@;
            let read = self.read_fields();
            let ghost answer = if read is Some {
                Some(field_bytes(read->Some_0@))
            } else {
                None
            };
            let ghost prev_reads = self.reads@;
            proof {
                assert(walk_queries(self.asked@) == walk_queries(self.asked@.drop_last())
                    + record_queries(self.asked@.last() as int));
                assert(self.asked@.drop_last() =~= prev_asked);
                assert(self.queries@ =~= old(self).queries@ + walk_queries(self.asked@));
            }
            let ghost prev_views = item_views(self.results@);
            self.reads = Ghost(self.reads@.push(answer));
            let limit = self.hosts.len();
            let pushed = push_record(&mut self.results, read, &self.codes, self.order, limit);
            proof {
                assert(self.reads@.drop_last() =~= prev_reads);
                assert forall|i: int| 0 <= i < self.asked@.len() implies 1 <= #[trigger] self.asked@[i]
                    <= RECORD_FIELDS && (self.reads@[i] is Some ==> self.asked@[i] == RECORD_FIELDS) by {
                    if i < prev_asked.len() {
                        assert(self.asked@[i] == prev_asked[i]);
                        assert(self.reads@[i] == prev_reads[i]);
                    }
                }
                assert(item_views(self.results@).len() == self.results@.len());
                assert(prev_views.len() == self.reads@.len() - 1);
            }
            if !pushed {
                return ;
            }
            more = self.engine.next_record();
            self.walk = Ghost(self.walk@.push(more));
        }
    }


    /// Sends one echo request to every target and waits for the replies or
    /// the timeout; the number of hosts that replied. The records of this send
    /// then replace those of the one before: they are read in the engine's
    /// order, at most one per registered host, until the engine has no more
    /// or one cannot be read or decoded, which ends them.
    ///
    /// With no host registered nothing is sent: the count is 0 and there is no
    /// record. A failed send leaves no record either.
    pub fn send(&mut self) -> (r: PingResult<i32>)
        requires
            old(self).wf(),
        ensures
            final(self).wf(),
            final(self).same_platform(old(self)),
            final(self).option_set() == old(self).option_set(),
            final(self).text_options() == old(self).text_options(),
            final(self).host_list() == old(self).host_list(),
            old(self).host_list().len() == 0 ==> {
                &&& r matches Ok(n) && n == 0
                &&& final(self).results_view().len() == 0
                &&& final(self).call_log() == old(self).call_log()
            },
            old(self).host_list().len() > 0 ==> {
                &&& final(self).made_call(old(self), Request::Send)
                &&& (r is Ok <==> final(self).last_status() >= 0)
                &&& r matches Ok(n) ==> n == final(self).last_status()
                &&& r is Err ==> final(self).results_view().len() == 0
                    && final(self).reports_engine_error(old(self), r->Err_0)
            },
            r matches Ok(n) ==> n >= 0,
            final(self).results_view().len() <= final(self).host_list().len(),
            r is Ok ==> final(self).results_view() == decoded_records(
                final(self).record_reads(),
                final(self).family_codes(),
                final(self).byte_order(),
            ),
            final(self).record_reads().len() <= final(self).host_list().len(),
            old(self).host_list().len() > 0 && r is Ok ==> Self::walk_complete(
                final(self).record_walk(),
                final(self).record_reads(),
                final(self).results_view().len(),
                final(self).host_list().len(),
            ),
            old(self).host_list().len() == 0 || r is Err ==> final(self).record_walk().len() == 0
                && final(self).record_reads().len() == 0
                && final(self).field_queries() == old(self).field_queries(),
            old(self).host_list().len() > 0 && r is Ok ==> {
                &&& final(self).field_queries() == old(self).field_queries() + walk_queries(
                    final(self).query_counts(),
                )
                &&& counts_match(final(self).query_counts(), final(self).record_reads())
            },
    {
        self.results = Vec::new();
        self.reads = Ghost(Seq::empty());
        self.walk = Ghost(Seq::empty());
        self.asked = Ghost(Seq::empty());
        proof {
            assert(self.results_view() =~= Seq::<PingItemView>::empty());
        }
        if self.hosts.len() == 0 {
            return Ok(0);
        }
        let status = self.issue(EngineRequest::Send);
        if status < 0 {
            return Err(self.engine_failure());
        }
        self.collect_results();
        Ok(status)
    }

    /// A cursor over the records of the last send. While it lives the session
    /// cannot send again, so it never shows records of an older send.
    pub fn iter(&self) -> (r: PingIter<'_>)
        ensures
            r.items() == self.results_view(),
            r.position() == 0,
    {
        PingIter { items: &self.results, pos: 0 }
    }

    /// The options the engine accepted.
    pub fn options(&self) -> (r: OptionSet)
        ensures
            r == self.option_set(),
    {
        self.options
    }

    /// The engine this session drives.
    pub fn engine(&self) -> &E {
        &self.engine
    }

    /// The hosts the session targets, in order of addition.
    pub fn hosts(&self) -> (r: &Vec<String>)
        ensures
            r@.map_values(|s: String| s@) == self.host_list(),
    {
        &self.hosts
    }
}

/// A forward-only cursor over the records of one send.
pub struct PingIter<'a> {
    items: &'a Vec<PingItem>,
    pos: usize,
}

impl<'a> PingIter<'a> {
    pub closed spec fn items(&self) -> Seq<PingItemView> {
        self.items@.map_values(|i: PingItem| i@)
    }

    pub closed spec fn position(&self) -> nat {
        self.pos as nat
    }

    /// The record at the cursor, which then moves on; `None` once every
    /// record was handed out, and from then on.
    pub fn next(&mut self) -> (r: Option<PingItem>)
        ensures
            final(self).items() == old(self).items(),
            old(self).position() < old(self).items().len() ==> {
                &&& r matches Some(item) && item@ == old(self).items()[old(self).position() as int]
                &&& final(self).position() == old(self).position() + 1
            },
            old(self).position() >= old(self).items().len() ==> {
                &&& r is None
                &&& final(self).position() == old(self).position()
            },
    {
        if self.pos >= self.items.len() {
            return None;
        }
        let item = self.items[self.pos].duplicate();
        self.pos = self.pos + 1;
        Some(item)
    }
}

} // verus!

use oping::{AddrFamily, EchoEngine, EngineRequest, OptionSet, Ping, PingError, PingItem};

/// An engine held in memory: every host named "1.2.3.4" stays silent, every
/// other one answers.
struct FakeEngine {
    hosts: Vec<String>,
    options: Vec<(u32, Vec<u8>)>,
    refuse_options: bool,
    refuse_hosts: bool,
    fail_send: bool,
    records: Vec<Vec<Vec<u8>>>,
    cursor: usize,
    host_calls: usize,
    broken_field: Option<u32>,
    queries: Vec<(u32, usize)>,
}

impl FakeEngine {
    fn new() -> FakeEngine {
        FakeEngine {
            hosts: Vec::new(),
            options: Vec::new(),
            refuse_options: false,
            refuse_hosts: false,
            fail_send: false,
            records: Vec::new(),
            cursor: 0,
            host_calls: 0,
            broken_field: None,
            queries: Vec::new(),
        }
    }
}

fn text(s: &str) -> Vec<u8> {
    let mut b = s.as_bytes().to_vec();
    b.push(0);
    b
}

impl EchoEngine for FakeEngine {
    fn execute(&mut self, request: &EngineRequest) -> i32 {
        match request {
            EngineRequest::SetOption { option, value } => self.set_option(*option, value),
            EngineRequest::AddHost { name } => self.add_host(name),
            EngineRequest::RemoveHost { name } => self.remove_host(name),
            EngineRequest::Send => self.send(),
        }
    }

    fn last_error(&mut self) -> String {
        String::from("engine refused")
    }

    fn first_record(&mut self) -> bool {
        self.cursor = 0;
        !self.records.is_empty()
    }

    fn next_record(&mut self) -> bool {
        self.cursor += 1;
        self.cursor < self.records.len()
    }

    fn read_field(&mut self, field: u32, capacity: usize) -> Option<Vec<u8>> {
        self.queries.push((field, capacity));
        if self.broken_field == Some(field) {
            return None;
        }
        let rec = self.records.get(self.cursor)?;
        let idx = match field {
            1 => 0,
            2 => 1,
            3 => 2,
            4 => 3,
            9 => 4,
            5 => 5,
            10 => 6,
            11 => 7,
            _ => return None,
        };
        let b = rec[idx].clone();
        if b.len() > capacity {
            return None;
        }
        Some(b)
    }
}

impl FakeEngine {
    fn set_option(&mut self, option: u32, value: &Vec<u8>) -> i32 {
        if self.refuse_options {
            return -1;
        }
        self.options.push((option, value.clone()));
        0
    }

    fn add_host(&mut self, name: &Vec<u8>) -> i32 {
        self.host_calls += 1;
        if self.refuse_hosts {
            return -1;
        }
        let s = String::from_utf8(name[..name.len() - 1].to_vec()).unwrap();
        self.hosts.push(s);
        0
    }

    fn remove_host(&mut self, name: &Vec<u8>) -> i32 {
        self.host_calls += 1;
        let s = String::from_utf8(name[..name.len() - 1].to_vec()).unwrap();
        match self.hosts.iter().position(|h| *h == s) {
            Some(i) => {
                self.hosts.remove(i);
                0
            }
            None => -1,
        }
    }

    fn send(&mut self) -> i32 {
        if self.fail_send || self.hosts.is_empty() {
            return -1;
        }
        self.records.clear();
        let mut replies = 0;
        for (seq, h) in self.hosts.iter().enumerate() {
            let silent = h == "1.2.3.4";
            if !silent {
                replies += 1;
            }
            let address = if h == "localhost" { "127.0.0.1" } else { h.as_str() };
            let latency: f64 = if silent { -1.0 } else { 0.25 };
            self.records.push(vec![
                text(h),
                text(address),
                libc::AF_INET.to_ne_bytes().to_vec(),
                latency.to_bits().to_ne_bytes().to_vec(),
                (if silent { 1u32 } else { 0u32 }).to_ne_bytes().to_vec(),
                (seq as i32).to_ne_bytes().to_vec(),
                (if silent { -1i32 } else { 64i32 }).to_ne_bytes().to_vec(),
                vec![0u8],
            ]);
        }
        replies
    }
}

fn collect(p: &Ping<FakeEngine>) -> Vec<PingItem> {
    let mut it = p.iter();
    let mut out = Vec::new();
    while let Some(item) = it.next() {
        out.push(item);
    }
    out
}

#[test]
fn test_basic_opts() {
    let mut p = Ping::new(FakeEngine::new());
    assert!(p.set_timeout(5.0f64.to_bits()).is_ok());
    assert!(p.set_ttl(42).is_ok());
    assert!(p.set_addr_family(AddrFamily::IPV4).is_ok());
    assert!(p.set_qos(42).is_ok());
}

#[test]
fn options_keep_their_neighbours() {
    let mut p = Ping::new(FakeEngine::new());
    p.set_ttl(42).unwrap();
    p.set_qos(7).unwrap();
    p.set_timeout(2.5f64.to_bits()).unwrap();
    p.set_addr_family(AddrFamily::IPV6).unwrap();
    let o = p.options();
    assert_eq!(o.ttl, Some(42));
    assert_eq!(o.qos, Some(7));
    assert_eq!(o.timeout_bits, Some(2.5f64.to_bits()));
    assert_eq!(o.family, Some(AddrFamily::IPV6));
}

#[test]
fn option_values_reach_the_engine_encoded() {
    let mut p = Ping::new(FakeEngine::new());
    p.set_ttl(42).unwrap();
    p.set_qos(200).unwrap();
    p.set_timeout(5.0f64.to_bits()).unwrap();
    p.set_addr_family(AddrFamily::IPV6).unwrap();
    p.add_host("x").unwrap();
    p.send().unwrap();
    let opts = collect_options(p);
    assert_eq!(opts[0], (2, 42i32.to_ne_bytes().to_vec()));
    assert_eq!(opts[1], (64, vec![200u8]));
    assert_eq!(opts[2], (1, 5.0f64.to_bits().to_ne_bytes().to_vec()));
    assert_eq!(opts[3], (4, libc::AF_INET6.to_ne_bytes().to_vec()));
}

fn collect_options(p: Ping<FakeEngine>) -> Vec<(u32, Vec<u8>)> {
    p.engine().options.clone()
}

#[test]
fn refused_option_keeps_the_old_value() {
    let mut e = FakeEngine::new();
    e.refuse_options = true;
    let mut p = Ping::new(e);
    match p.set_ttl(300) {
        Err(PingError::LibOpingError(m)) => assert_eq!(m, "engine refused"),
        other => panic!("unexpected {:?}", other),
    }
    assert_eq!(p.options(), OptionSet::unset());
}

#[test]
fn nul_in_host_name_is_refused_before_the_engine() {
    let mut p = Ping::new(FakeEngine::new());
    assert!(matches!(p.add_host("local\0host"), Err(PingError::NulByteError)));
    assert!(matches!(p.remove_host("a\0"), Err(PingError::NulByteError)));
    assert!(p.hosts().is_empty());
    assert_eq!(p.engine().host_calls, 0);
}

#[test]
fn add_then_remove_leaves_no_target() {
    let mut p = Ping::new(FakeEngine::new());
    p.add_host("localhost").unwrap();
    p.remove_host("localhost").unwrap();
    assert!(p.hosts().is_empty());
    assert_eq!(p.send().unwrap(), 0);
    assert!(collect(&p).is_empty());
}

#[test]
fn registry_holds_each_name_once() {
    let mut p = Ping::new(FakeEngine::new());
    p.add_host("a").unwrap();
    p.add_host("b").unwrap();
    p.add_host("a").unwrap();
    assert_eq!(p.hosts().clone(), vec![String::from("a"), String::from("b")]);
    p.remove_host("a").unwrap();
    assert_eq!(p.hosts().clone(), vec![String::from("b")]);
}

#[test]
fn refused_removal_reports_the_engine_message() {
    let mut p = Ping::new(FakeEngine::new());
    match p.remove_host("never-added") {
        Err(PingError::LibOpingError(m)) => assert_eq!(m, "engine refused"),
        other => panic!("unexpected {:?}", other),
    }
}

#[test]
fn refused_host_is_not_registered() {
    let mut e = FakeEngine::new();
    e.refuse_hosts = true;
    let mut p = Ping::new(e);
    assert!(matches!(p.add_host("nowhere.invalid"), Err(PingError::LibOpingError(_))));
    assert!(p.hosts().is_empty());
}

#[test]
fn send_without_hosts_counts_zero() {
    let mut p = Ping::new(FakeEngine::new());
    assert_eq!(p.send().unwrap(), 0);
    assert!(p.iter().next().is_none());
}

#[test]
fn failed_send_reports_the_engine_message() {
    let mut e = FakeEngine::new();
    e.fail_send = true;
    let mut p = Ping::new(e);
    p.add_host("localhost").unwrap();
    match p.send() {
        Err(PingError::LibOpingError(m)) => assert_eq!(m, "engine refused"),
        other => panic!("unexpected {:?}", other),
    }
    assert!(collect(&p).is_empty());
}

#[test]
fn localhost_round_trip() {
    let mut p = Ping::new(FakeEngine::new());
    p.add_host("localhost").unwrap();
    p.set_timeout(5.0f64.to_bits()).unwrap();
    assert_eq!(p.send().unwrap(), 1);
    let items = collect(&p);
    assert_eq!(items.len(), 1);
    assert_eq!(items[0].hostname, "localhost");
    assert_eq!(items[0].address, "127.0.0.1");
    assert_eq!(items[0].family, AddrFamily::IPV4);
    assert_eq!(items[0].dropped, 0);
    assert_eq!(f64::from_bits(items[0].latency_bits), 0.25);
    assert_eq!(items[0].recv_ttl, 64);
}

#[test]
fn unreachable_host_is_dropped() {
    let mut p = Ping::new(FakeEngine::new());
    p.add_host("1.2.3.4").unwrap();
    assert_eq!(p.send().unwrap(), 0);
    let items = collect(&p);
    assert_eq!(items.len(), 1);
    assert!(items[0].dropped >= 1);
    assert_eq!(items[0].recv_ttl, -1);
}

#[test]
fn records_follow_the_hosts() {
    let mut p = Ping::new(FakeEngine::new());
    p.add_host("localhost").unwrap();
    p.add_host("::1").unwrap();
    p.add_host("1.2.3.4").unwrap();
    assert_eq!(p.send().unwrap(), 2);
    let items = collect(&p);
    let names: Vec<&str> = items.iter().map(|i| i.hostname.as_str()).collect();
    assert_eq!(names, vec!["localhost", "::1", "1.2.3.4"]);
    let seqs: Vec<i32> = items.iter().map(|i| i.seq).collect();
    assert_eq!(seqs, vec![0, 1, 2]);
}

#[test]
fn exhausted_cursor_stays_exhausted() {
    let mut p = Ping::new(FakeEngine::new());
    p.add_host("localhost").unwrap();
    p.send().unwrap();
    let mut it = p.iter();
    assert!(it.next().is_some());
    assert!(it.next().is_none());
    assert!(it.next().is_none());
}

#[test]
fn unreadable_field_stops_the_records() {
    let mut e = FakeEngine::new();
    e.broken_field = Some(10);
    let mut p = Ping::new(e);
    p.add_host("localhost").unwrap();
    assert_eq!(p.send().unwrap(), 1);
    assert!(collect(&p).is_empty());
}

#[test]
fn source_and_device_are_handed_over_as_text() {
    let mut p = Ping::new(FakeEngine::new());
    p.set_source("192.0.2.1").unwrap();
    p.set_device("eth0").unwrap();
    assert!(matches!(p.set_device("et\0h0"), Err(PingError::NulByteError)));
    assert_eq!(p.options(), OptionSet::unset());
    let opts = p.engine().options.clone();
    assert_eq!(opts.len(), 2);
    assert_eq!(opts[0], (16, b"192.0.2.1\0".to_vec()));
    assert_eq!(opts[1], (32, b"eth0\0".to_vec()));
}

#[test]
fn fields_are_asked_in_order_with_full_buffers() {
    let mut p = Ping::new(FakeEngine::new());
    p.add_host("localhost").unwrap();
    p.send().unwrap();
    let q = p.engine().queries.clone();
    let tags: Vec<u32> = q.iter().map(|x| x.0).collect();
    assert_eq!(tags, vec![1, 2, 3, 4, 9, 5, 10, 11]);
    assert!(q.iter().all(|x| x.1 == 1024));
}

#[test]
fn failed_field_read_asks_nothing_more() {
    let mut e = FakeEngine::new();
    e.broken_field = Some(3);
    let mut p = Ping::new(e);
    p.add_host("a").unwrap();
    p.add_host("b").unwrap();
    p.send().unwrap();
    let tags: Vec<u32> = p.engine().queries.iter().map(|x| x.0).collect();
    assert_eq!(tags, vec![1, 2, 3]);
    assert!(collect(&p).is_empty());
}

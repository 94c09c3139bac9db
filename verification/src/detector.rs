//! Best-effort protocol sniffing.
//!
//! The listener peeks the first bytes a client sends and matches them
//! against each service's header-pattern prefixes. The first service with a
//! matching pattern wins; among matches the service listening on the accept
//! port is preferred; when nothing matches, the service bound to the accept
//! port is the fallback.

use vstd::prelude::*;
use vstd::utf8::encode_utf8;

use crate::config::{Protocol, ServiceConfig};

verus! {

/// Mathematical view of a service pattern.
#[verifier::ext_equal]
pub ghost struct PatternView {
    pub service_name: Seq<char>,
    pub port: u16,
    pub protocol: Protocol,
    pub header_patterns: Seq<Seq<char>>,
    pub banner_patterns: Seq<Seq<char>>,
}

/// How one service is recognized on the wire.
pub struct ServicePattern {
    /// The service the pattern belongs to.
    pub service_name: String,
    /// The service's listen port.
    pub port: u16,
    /// The service's transport.
    pub protocol: Protocol,
    /// Byte-prefix patterns that identify the protocol.
    pub header_patterns: Vec<String>,
    /// Banner fragments that identify the protocol.
    pub banner_patterns: Vec<String>,
}

impl View for ServicePattern {
    type V = PatternView;

    open spec fn view(&self) -> PatternView {
        PatternView {
            service_name: self.service_name@,
            port: self.port,
            protocol: self.protocol,
            header_patterns: self.header_patterns.deep_view(),
            banner_patterns: self.banner_patterns.deep_view(),
        }
    }
}

impl DeepView for ServicePattern {
    type V = PatternView;

    open spec fn deep_view(&self) -> PatternView {
        self.view()
    }
}

/// Whether the pattern's bytes are a prefix of the peeked bytes.
pub open spec fn pattern_matches(pattern: Seq<char>, peek: Seq<u8>) -> bool {
    encode_utf8(pattern).is_prefix_of(peek)
}

/// Whether any of the service's header patterns is a prefix of the peek.
pub open spec fn service_matches(p: PatternView, peek: Seq<u8>) -> bool {
    exists|i: int|
        0 <= i < p.header_patterns.len() && pattern_matches(#[trigger] p.header_patterns[i], peek)
}

/// Position of the first service at or after `from` whose pattern matches
/// the peek — restricted, when `require_port` is set, to services on the
/// accept port — or -1.
pub open spec fn first_match(
    ps: Seq<PatternView>,
    peek: Seq<u8>,
    require_port: bool,
    port: u16,
    from: int,
) -> int
    decreases ps.len() - from,
{
    if from < 0 || from >= ps.len() {
        -1
    } else if service_matches(ps[from], peek) && (!require_port || ps[from].port == port) {
        from
    } else {
        first_match(ps, peek, require_port, port, from + 1)
    }
}

/// Position of the first service at or after `from` listening on the port,
/// or -1.
pub open spec fn first_with_port(ps: Seq<PatternView>, port: u16, from: int) -> int
    decreases ps.len() - from,
{
    if from < 0 || from >= ps.len() {
        -1
    } else if ps[from].port == port {
        from
    } else {
        first_with_port(ps, port, from + 1)
    }
}

/// The service the sniff selects: a matching service on the accept port if
/// any, else the first matching service, else the service bound to the
/// accept port, else none.
pub open spec fn detect_index(ps: Seq<PatternView>, peek: Seq<u8>, port: u16) -> int {
    if first_match(ps, peek, true, port, 0) >= 0 {
        first_match(ps, peek, true, port, 0)
    } else if first_match(ps, peek, false, port, 0) >= 0 {
        first_match(ps, peek, false, port, 0)
    } else {
        first_with_port(ps, port, 0)
    }
}

/// A found port fallback lies between `from` and the end.
proof fn lemma_first_with_port_bounds(ps: Seq<PatternView>, port: u16, from: int)
    ensures
        first_with_port(ps, port, from) == -1 || from <= first_with_port(ps, port, from)
            < ps.len(),
    decreases ps.len() - from,
{
    if 0 <= from < ps.len() {
        lemma_first_with_port_bounds(ps, port, from + 1);
    }
}

/// Whether the pattern's bytes are a prefix of the peeked bytes.
fn bytes_prefix_of(pattern: &str, peek: &[u8]) -> (r: bool)
    ensures
        r == pattern_matches(pattern@, peek@),
{
    let pb = pattern.as_bytes();
    if pb.len() > peek.len() {
        proof {
            assert(!encode_utf8(pattern@).is_prefix_of(peek@));
        }
        return false;
    }
    let mut i: usize = 0;
    while i < pb.len()
        invariant
            i <= pb@.len(),
            pb@ == encode_utf8(pattern@),
            pb@.len() <= peek@.len(),
            forall|j: int| 0 <= j < i ==> pb@[j] == peek@[j],
        decreases pb@.len() - i,
    {
        if pb[i] != peek[i] {
            proof {
                assert(peek@.subrange(0, pb@.len() as int)[i as int] == peek@[i as int]);
                assert(!pb@.is_prefix_of(peek@));
            }
            return false;
        }
        i = i + 1;
    }
    proof {
        assert(pb@ =~= peek@.subrange(0, pb@.len() as int));
    }
    true
}

/// Identifies the service an incoming connection is addressed to.
pub struct ServiceDetector {
    /// Recognition patterns, in configuration order.
    pub service_patterns: Vec<ServicePattern>,
}

impl ServiceDetector {
    /// The views of the recognition patterns.
    pub open spec fn patterns(&self) -> Seq<PatternView> {
        self.service_patterns.deep_view()
    }

    /// Builds one recognition pattern per configured service.
    pub fn new(services: &Vec<ServiceConfig>) -> (r: ServiceDetector)
        ensures
            r.patterns().len() == services@.len(),
            forall|i: int|
                0 <= i < services@.len() ==> {
                    &&& (#[trigger] r.patterns()[i]).service_name == services@[i].name@
                    &&& r.patterns()[i].port == services@[i].port
                    &&& r.patterns()[i].header_patterns == services@[i].header_patterns.deep_view()
                },
    {
        let mut out: Vec<ServicePattern> = Vec::new();
        let mut i: usize = 0;
        while i < services.len()
            invariant
                i <= services@.len(),
                out@.len() == i,
                forall|j: int|
                    0 <= j < i ==> {
                        &&& (#[trigger] out@[j])@.service_name == services@[j].name@
                        &&& out@[j]@.port == services@[j].port
                        &&& out@[j]@.header_patterns == services@[j].header_patterns.deep_view()
                    },
            decreases services@.len() - i,
        {
            let s = &services[i];
            let sp = ServicePattern {
                service_name: s.name.clone(),
                port: s.port,
                protocol: s.protocol,
                header_patterns: copy_strings(&s.header_patterns),
                banner_patterns: Vec::new(),
            };
            out.push(sp);
            i = i + 1;
        }
        let r = ServiceDetector { service_patterns: out };
        proof {
            assert forall|i2: int| 0 <= i2 < services@.len() implies {
                &&& (#[trigger] r.patterns()[i2]).service_name == services@[i2].name@
                &&& r.patterns()[i2].port == services@[i2].port
                &&& r.patterns()[i2].header_patterns == services@[i2].header_patterns.deep_view()
            } by {
                assert(r.patterns()[i2] == r.service_patterns@[i2]@);
            }
        }
        r
    }

    /// Sniffs the service from the peeked bytes and the accept port.
    pub fn detect_service(&self, peek: &[u8], port: u16) -> (r: Option<String>)
        ensures
            match r {
                Some(name) => detect_index(self.patterns(), peek@, port) >= 0 && name@
                    == self.patterns()[detect_index(self.patterns(), peek@, port)].service_name,
                None => detect_index(self.patterns(), peek@, port) == -1,
            },
    {
        let ghost ps = self.patterns();
        if let Some(k) = self.first_matching(peek, true, port) {
            proof {
                assert(self.patterns()[k as int] == self.service_patterns@[k as int]@);
            }
            return Some(self.service_patterns[k].service_name.clone());
        }
        if let Some(k) = self.first_matching(peek, false, port) {
            proof {
                assert(self.patterns()[k as int] == self.service_patterns@[k as int]@);
            }
            return Some(self.service_patterns[k].service_name.clone());
        }
        proof {
            lemma_first_with_port_bounds(ps, port, 0);
        }
        let n = self.service_patterns.len();
        let mut i: usize = 0;
        while i < n
            invariant
                n == self.service_patterns@.len(),
                i <= n,
                first_match(self.patterns(), peek@, true, port, 0) == -1,
                first_match(self.patterns(), peek@, false, port, 0) == -1,
                first_with_port(self.patterns(), port, 0) == first_with_port(
                    self.patterns(),
                    port,
                    i as int,
                ),
            decreases n - i,
        {
            if self.service_patterns[i].port == port {
                proof {
                    assert(self.patterns()[i as int] == self.service_patterns@[i as int]@);
                    assert(self.patterns()[i as int].port == port);
                    assert(first_with_port(self.patterns(), port, i as int) == i);
                }
                return Some(self.service_patterns[i].service_name.clone());
            }
            proof {
                assert(self.patterns()[i as int] == self.service_patterns@[i as int]@);
            }
            i = i + 1;
        }
        None
    }

    /// Position of the first service whose pattern matches the peek,
    /// restricted to the accept port when `require_port` is set.
    fn first_matching(&self, peek: &[u8], require_port: bool, port: u16) -> (r: Option<usize>)
        ensures
            match r {
                Some(k) => k < self.service_patterns@.len() && first_match(
                    self.patterns(),
                    peek@,
                    require_port,
                    port,
                    0,
                ) == k,
                None => first_match(self.patterns(), peek@, require_port, port, 0) == -1,
            },
    {
        let n = self.service_patterns.len();
        let mut i: usize = 0;
        while i < n
            invariant
                n == self.service_patterns@.len(),
                i <= n,
                first_match(self.patterns(), peek@, require_port, port, 0) == first_match(
                    self.patterns(),
                    peek@,
                    require_port,
                    port,
                    i as int,
                ),
            decreases n - i,
        {
            let sp = &self.service_patterns[i];
            let port_ok = !require_port || sp.port == port;
            let matched = port_ok && Self::any_pattern_matches(&sp.header_patterns, peek);
            proof {
                assert(self.patterns()[i as int] == self.service_patterns@[i as int]@);
                assert(matched == (service_matches(self.patterns()[i as int], peek@) && (
                !require_port || self.patterns()[i as int].port == port)));
            }
            if matched {
                proof {
                    assert(first_match(self.patterns(), peek@, require_port, port, i as int)
                        == i);
                }
                return Some(i);
            }
            i = i + 1;
        }
        None
    }

    /// Whether any pattern of the list is a prefix of the peeked bytes.
    fn any_pattern_matches(patterns: &Vec<String>, peek: &[u8]) -> (r: bool)
        ensures
            r == exists|i: int|
                0 <= i < patterns.deep_view().len() && pattern_matches(
                    #[trigger] patterns.deep_view()[i],
                    peek@,
                ),
    {
        let mut i: usize = 0;
        while i < patterns.len()
            invariant
                i <= patterns@.len(),
                forall|j: int|
                    0 <= j < i ==> !pattern_matches(#[trigger] patterns.deep_view()[j], peek@),
            decreases patterns@.len() - i,
        {
            if bytes_prefix_of(patterns[i].as_str(), peek) {
                proof {
                    assert(patterns.deep_view()[i as int] == patterns@[i as int]@);
                }
                return true;
            }
            proof {
                assert(patterns.deep_view()[i as int] == patterns@[i as int]@);
            }
            i = i + 1;
        }
        false
    }
}

/// Copies a list of strings.
pub fn copy_strings(v: &Vec<String>) -> (r: Vec<String>)
    ensures
        r.deep_view() == v.deep_view(),
{
    let mut r: Vec<String> = Vec::new();
    let mut i: usize = 0;
    while i < v.len()
        invariant
            i <= v@.len(),
            r@.len() == i,
            forall|j: int| 0 <= j < i ==> #[trigger] r@[j]@ == v@[j]@,
        decreases v@.len() - i,
    {
        r.push(v[i].clone());
        i = i + 1;
    }
    proof {
        assert(r.deep_view() =~= v.deep_view());
    }
    r
}

} // verus!

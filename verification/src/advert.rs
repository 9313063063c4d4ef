//! Advertisement records: the self-describing datagram payload a node
//! broadcasts to describe itself, with its exact binary encoding.
//!
//! The encoding opens with a version byte, then every fixed-width field
//! (tags, ports, timestamp, capabilities), then the four variable-length
//! strings. Decoding rejects anything malformed: a short buffer, an unknown
//! version or tag, invalid UTF-8, or trailing bytes.

use crate::codec::{
    de_bool, de_opt_string, de_string, de_u16, de_u32, de_u64, de_u8, lemma_de_bool_at,
    lemma_de_opt_string_at, lemma_de_string_at, lemma_de_u16_at, lemma_de_u32_at, lemma_de_u64_at,
    lemma_de_u8_at, lemma_take_piece, ser_bool, ser_opt_string, ser_string, ser_u16, ser_u32,
    ser_u64, ser_u8, spec_de_bool, spec_de_opt_string, spec_de_string, spec_de_u16, spec_de_u32,
    spec_de_u64, spec_de_u8, spec_ser_bool, spec_ser_opt_string, spec_ser_string, spec_ser_u16,
    spec_ser_u32, spec_ser_u64, spec_ser_u8, string_encodable,
};
use vstd::prelude::*;

verus! {

/// Version byte that leads every encoded advertisement, so that the format
/// can grow fields later.
pub const PAYLOAD_VERSION: u8 = 1;

/// The role a node plays on the overlay network.
#[derive(Clone, Copy, Debug, PartialEq, Eq, Structural)]
pub enum NodeType {
    Rental,
    Client,
    Coordinator,
}

/// Whether a node is currently accepting work.
#[derive(Clone, Copy, Debug, PartialEq, Eq, Structural)]
pub enum NodeStatus {
    Available,
    Busy,
    Maintenance,
    Offline,
}

/// Snapshot of what a node can offer to jobs.
#[derive(Clone, Copy, Debug, PartialEq, Eq, Structural)]
pub struct NodeCapabilities {
    pub cpu_cores: u32,
    pub memory_gb: u32,
    pub gpu_count: u32,
    pub gpu_memory_gb: u32,
    pub disk_space_gb: u32,
    pub network_speed_mbps: u32,
    pub supports_docker: bool,
    pub supports_gpu: bool,
    pub max_concurrent_jobs: u32,
}

/// One node's self-description, refreshed on every advertisement tick.
#[derive(Debug, PartialEq)]
pub struct NodeAdvertisement {
    pub node_id: String,
    pub node_type: NodeType,
    pub ip_address: String,
    pub zerotier_ip: Option<String>,
    pub ssh_port: u16,
    pub api_port: u16,
    pub capabilities: NodeCapabilities,
    pub status: NodeStatus,
    pub timestamp: u64,
    pub network_id: String,
}

/// Mathematical value of a [`NodeAdvertisement`]: strings become character
/// sequences, everything else is already plain data.
pub struct AdvView {
    pub node_id: Seq<char>,
    pub node_type: NodeType,
    pub ip_address: Seq<char>,
    pub zerotier_ip: Option<Seq<char>>,
    pub ssh_port: u16,
    pub api_port: u16,
    pub capabilities: NodeCapabilities,
    pub status: NodeStatus,
    pub timestamp: u64,
    pub network_id: Seq<char>,
}

impl Clone for NodeAdvertisement {
    fn clone(&self) -> (res: Self)
        ensures
            res == *self,
    {
        NodeAdvertisement {
            node_id: self.node_id.clone(),
            node_type: self.node_type,
            ip_address: self.ip_address.clone(),
            zerotier_ip: match &self.zerotier_ip {
                Some(z) => Some(z.clone()),
                None => None,
            },
            ssh_port: self.ssh_port,
            api_port: self.api_port,
            capabilities: self.capabilities,
            status: self.status,
            timestamp: self.timestamp,
            network_id: self.network_id.clone(),
        }
    }
}

impl View for NodeAdvertisement {
    type V = AdvView;

    open spec fn view(&self) -> AdvView {
        AdvView {
            node_id: self.node_id@,
            node_type: self.node_type,
            ip_address: self.ip_address@,
            zerotier_ip: match self.zerotier_ip {
                Some(z) => Some(z@),
                None => None,
            },
            ssh_port: self.ssh_port,
            api_port: self.api_port,
            capabilities: self.capabilities,
            status: self.status,
            timestamp: self.timestamp,
            network_id: self.network_id@,
        }
    }
}

// ---------------------------------------------------------------------------
// Enum tags
// ---------------------------------------------------------------------------

pub open spec fn spec_type_tag(t: NodeType) -> u8 {
    match t {
        NodeType::Rental => 0,
        NodeType::Client => 1,
        NodeType::Coordinator => 2,
    }
}

pub open spec fn spec_type_of_tag(b: u8) -> Option<NodeType> {
    if b == 0 {
        Some(NodeType::Rental)
    } else if b == 1 {
        Some(NodeType::Client)
    } else if b == 2 {
        Some(NodeType::Coordinator)
    } else {
        None
    }
}

pub open spec fn spec_status_tag(s: NodeStatus) -> u8 {
    match s {
        NodeStatus::Available => 0,
        NodeStatus::Busy => 1,
        NodeStatus::Maintenance => 2,
        NodeStatus::Offline => 3,
    }
}

pub open spec fn spec_status_of_tag(b: u8) -> Option<NodeStatus> {
    if b == 0 {
        Some(NodeStatus::Available)
    } else if b == 1 {
        Some(NodeStatus::Busy)
    } else if b == 2 {
        Some(NodeStatus::Maintenance)
    } else if b == 3 {
        Some(NodeStatus::Offline)
    } else {
        None
    }
}

fn type_tag(t: NodeType) -> (r: u8)
    ensures
        r == spec_type_tag(t),
{
    match t {
        NodeType::Rental => 0,
        NodeType::Client => 1,
        NodeType::Coordinator => 2,
    }
}

fn status_tag(s: NodeStatus) -> (r: u8)
    ensures
        r == spec_status_tag(s),
{
    match s {
        NodeStatus::Available => 0,
        NodeStatus::Busy => 1,
        NodeStatus::Maintenance => 2,
        NodeStatus::Offline => 3,
    }
}

// ---------------------------------------------------------------------------
// Encoding
// ---------------------------------------------------------------------------

pub open spec fn spec_ser_caps(c: NodeCapabilities) -> Seq<u8> {
    spec_ser_u32(c.cpu_cores) + (spec_ser_u32(c.memory_gb) + (spec_ser_u32(c.gpu_count) + (
    spec_ser_u32(c.gpu_memory_gb) + (spec_ser_u32(c.disk_space_gb) + (spec_ser_u32(
        c.network_speed_mbps,
    ) + (spec_ser_bool(c.supports_docker) + (spec_ser_bool(c.supports_gpu) + spec_ser_u32(
        c.max_concurrent_jobs,
    ))))))))
}

/// The fixed-width leading part of the encoding: version, tags, ports,
/// timestamp and capabilities. Always 45 bytes.
pub open spec fn spec_ser_header(v: AdvView) -> Seq<u8> {
    spec_ser_u8(PAYLOAD_VERSION) + (spec_ser_u8(spec_type_tag(v.node_type)) + (spec_ser_u8(
        spec_status_tag(v.status),
    ) + (spec_ser_u16(v.ssh_port) + (spec_ser_u16(v.api_port) + (spec_ser_u64(v.timestamp)
        + spec_ser_caps(v.capabilities))))))
}

pub open spec fn spec_ser_adv(v: AdvView) -> Seq<u8> {
    spec_ser_header(v) + (spec_ser_string(v.node_id) + (spec_ser_string(v.ip_address) + (
    spec_ser_opt_string(v.zerotier_ip) + spec_ser_string(v.network_id))))
}

/// True when every string of the record fits under its length prefix; any
/// record built by executable code satisfies this.
pub open spec fn adv_encodable(v: AdvView) -> bool {
    &&& string_encodable(v.node_id)
    &&& string_encodable(v.ip_address)
    &&& match v.zerotier_ip {
        Some(z) => string_encodable(z),
        None => true,
    }
    &&& string_encodable(v.network_id)
}

#[verifier::rlimit(100)]
#[verifier::spinoff_prover]
pub fn serialize_advertisement(adv: &NodeAdvertisement) -> (out: Vec<u8>)
    ensures
        out@ == spec_ser_adv(adv@),
{
    let ghost p1 = spec_ser_header(adv@);
    let ghost p2 = spec_ser_string(adv.node_id@);
    let ghost p3 = spec_ser_string(adv.ip_address@);
    let ghost p4 = spec_ser_opt_string(adv@.zerotier_ip);
    let ghost p5 = spec_ser_string(adv.network_id@);
    let ghost q1 = spec_ser_u8(PAYLOAD_VERSION);
    let ghost q2 = spec_ser_u8(spec_type_tag(adv.node_type));
    let ghost q3 = spec_ser_u8(spec_status_tag(adv.status));
    let ghost q4 = spec_ser_u16(adv.ssh_port);
    let ghost q5 = spec_ser_u16(adv.api_port);
    let ghost q6 = spec_ser_u64(adv.timestamp);
    let ghost q7 = spec_ser_caps(adv.capabilities);
    let mut out: Vec<u8> = Vec::new();
    ser_u8(&mut out, PAYLOAD_VERSION);
    let ghost h1 = out@;
    ser_u8(&mut out, type_tag(adv.node_type));
    let ghost h2 = out@;
    ser_u8(&mut out, status_tag(adv.status));
    let ghost h3 = out@;
    ser_u16(&mut out, adv.ssh_port);
    let ghost h4 = out@;
    ser_u16(&mut out, adv.api_port);
    let ghost h5 = out@;
    ser_u64(&mut out, adv.timestamp);
    let ghost before_caps = out@;
    ser_u32(&mut out, adv.capabilities.cpu_cores);
    ser_u32(&mut out, adv.capabilities.memory_gb);
    ser_u32(&mut out, adv.capabilities.gpu_count);
    ser_u32(&mut out, adv.capabilities.gpu_memory_gb);
    ser_u32(&mut out, adv.capabilities.disk_space_gb);
    ser_u32(&mut out, adv.capabilities.network_speed_mbps);
    ser_bool(&mut out, adv.capabilities.supports_docker);
    ser_bool(&mut out, adv.capabilities.supports_gpu);
    ser_u32(&mut out, adv.capabilities.max_concurrent_jobs);
    proof {
        assert(out@ =~= before_caps + q7);
        let s6 = q6 + q7;
        assert(out@ =~= h5 + s6);
        let s5 = q5 + s6;
        assert(out@ =~= h4 + s5);
        let s4 = q4 + s5;
        assert(out@ =~= h3 + s4);
        let s3 = q3 + s4;
        assert(out@ =~= h2 + s3);
        let s2 = q2 + s3;
        assert(out@ =~= h1 + s2);
        let s1 = q1 + s2;
        assert(out@ =~= s1);
        assert(s1 == p1);
    }
    let ghost b1 = out@;
    ser_string(&mut out, self_str(&adv.node_id));
    let ghost b2 = out@;
    ser_string(&mut out, self_str(&adv.ip_address));
    let ghost b3 = out@;
    ser_opt_string(&mut out, &adv.zerotier_ip);
    let ghost b4 = out@;
    ser_string(&mut out, self_str(&adv.network_id));
    proof {
        let t4 = p4 + p5;
        assert(out@ =~= b3 + t4);
        let t3 = p3 + t4;
        assert(out@ =~= b2 + t3);
        let t2 = p2 + t3;
        assert(out@ =~= b1 + t2);
        assert(out@ =~= p1 + t2);
        assert(p1 + t2 == spec_ser_adv(adv@));
    }
    out
}

/// `String::as_str` under a name that keeps the serializer lines uniform.
fn self_str(s: &String) -> (r: &str)
    ensures
        r@ == s@,
{
    s.as_str()
}

// ---------------------------------------------------------------------------
// Decoding
// ---------------------------------------------------------------------------

pub open spec fn spec_de_caps(data: Seq<u8>, pos: int) -> Option<(NodeCapabilities, int)> {
    match spec_de_u32(data, pos) {
        None => None,
        Some((cpu_cores, p)) => match spec_de_u32(data, p) {
            None => None,
            Some((memory_gb, p)) => match spec_de_u32(data, p) {
                None => None,
                Some((gpu_count, p)) => match spec_de_u32(data, p) {
                    None => None,
                    Some((gpu_memory_gb, p)) => match spec_de_u32(data, p) {
                        None => None,
                        Some((disk_space_gb, p)) => match spec_de_u32(data, p) {
                            None => None,
                            Some((network_speed_mbps, p)) => match spec_de_bool(data, p) {
                                None => None,
                                Some((supports_docker, p)) => match spec_de_bool(data, p) {
                                    None => None,
                                    Some((supports_gpu, p)) => match spec_de_u32(data, p) {
                                        None => None,
                                        Some((max_concurrent_jobs, p)) => Some(
                                            (
                                                NodeCapabilities {
                                                    cpu_cores,
                                                    memory_gb,
                                                    gpu_count,
                                                    gpu_memory_gb,
                                                    disk_space_gb,
                                                    network_speed_mbps,
                                                    supports_docker,
                                                    supports_gpu,
                                                    max_concurrent_jobs,
                                                },
                                                p,
                                            ),
                                        ),
                                    },
                                },
                            },
                        },
                    },
                },
            },
        },
    }
}

/// Everything the fixed-width header carries, in decoding order.
pub struct HeaderView {
    pub node_type: NodeType,
    pub status: NodeStatus,
    pub ssh_port: u16,
    pub api_port: u16,
    pub timestamp: u64,
    pub capabilities: NodeCapabilities,
}

pub open spec fn spec_de_header(data: Seq<u8>, pos: int) -> Option<(HeaderView, int)> {
    match spec_de_u8(data, pos) {
        None => None,
        Some((version, p)) => if version != PAYLOAD_VERSION {
            None
        } else {
            match spec_de_u8(data, p) {
                None => None,
                Some((type_byte, p)) => match spec_type_of_tag(type_byte) {
                    None => None,
                    Some(node_type) => match spec_de_u8(data, p) {
                        None => None,
                        Some((status_byte, p)) => match spec_status_of_tag(status_byte) {
                            None => None,
                            Some(status) => match spec_de_u16(data, p) {
                                None => None,
                                Some((ssh_port, p)) => match spec_de_u16(data, p) {
                                    None => None,
                                    Some((api_port, p)) => match spec_de_u64(data, p) {
                                        None => None,
                                        Some((timestamp, p)) => match spec_de_caps(data, p) {
                                            None => None,
                                            Some((capabilities, p)) => Some(
                                                (
                                                    HeaderView {
                                                        node_type,
                                                        status,
                                                        ssh_port,
                                                        api_port,
                                                        timestamp,
                                                        capabilities,
                                                    },
                                                    p,
                                                ),
                                            ),
                                        },
                                    },
                                },
                            },
                        },
                    },
                },
            }
        },
    }
}

pub open spec fn spec_de_adv(data: Seq<u8>, pos: int) -> Option<(AdvView, int)> {
    match spec_de_header(data, pos) {
        None => None,
        Some((h, p)) => match spec_de_string(data, p) {
            None => None,
            Some((node_id, p)) => match spec_de_string(data, p) {
                None => None,
                Some((ip_address, p)) => match spec_de_opt_string(data, p) {
                    None => None,
                    Some((zerotier_ip, p)) => match spec_de_string(data, p) {
                        None => None,
                        Some((network_id, p)) => Some(
                            (
                                AdvView {
                                    node_id,
                                    node_type: h.node_type,
                                    ip_address,
                                    zerotier_ip,
                                    ssh_port: h.ssh_port,
                                    api_port: h.api_port,
                                    capabilities: h.capabilities,
                                    status: h.status,
                                    timestamp: h.timestamp,
                                    network_id,
                                },
                                p,
                            ),
                        ),
                    },
                },
            },
        },
    }
}

/// A whole datagram decodes as a record exactly when the record's encoding
/// spans the full buffer: trailing bytes are rejected.
pub open spec fn spec_parse_advertisement(data: Seq<u8>) -> Option<AdvView> {
    match spec_de_adv(data, 0) {
        None => None,
        Some((v, p)) => if p == data.len() {
            Some(v)
        } else {
            None
        },
    }
}

fn de_caps(data: &[u8], pos: usize) -> (r: Option<(NodeCapabilities, usize)>)
    requires
        pos <= data@.len(),
    ensures
        r is Some <==> spec_de_caps(data@, pos as int) is Some,
        r matches Some((c, p)) ==> spec_de_caps(data@, pos as int) == Some((c, p as int)) && p
            <= data@.len(),
{
    let (cpu_cores, pos) = match de_u32(data, pos) {
        Some(x) => x,
        None => {
            return None;
        },
    };
    let (memory_gb, pos) = match de_u32(data, pos) {
        Some(x) => x,
        None => {
            return None;
        },
    };
    let (gpu_count, pos) = match de_u32(data, pos) {
        Some(x) => x,
        None => {
            return None;
        },
    };
    let (gpu_memory_gb, pos) = match de_u32(data, pos) {
        Some(x) => x,
        None => {
            return None;
        },
    };
    let (disk_space_gb, pos) = match de_u32(data, pos) {
        Some(x) => x,
        None => {
            return None;
        },
    };
    let (network_speed_mbps, pos) = match de_u32(data, pos) {
        Some(x) => x,
        None => {
            return None;
        },
    };
    let (supports_docker, pos) = match de_bool(data, pos) {
        Some(x) => x,
        None => {
            return None;
        },
    };
    let (supports_gpu, pos) = match de_bool(data, pos) {
        Some(x) => x,
        None => {
            return None;
        },
    };
    let (max_concurrent_jobs, pos) = match de_u32(data, pos) {
        Some(x) => x,
        None => {
            return None;
        },
    };
    Some(
        (
            NodeCapabilities {
                cpu_cores,
                memory_gb,
                gpu_count,
                gpu_memory_gb,
                disk_space_gb,
                network_speed_mbps,
                supports_docker,
                supports_gpu,
                max_concurrent_jobs,
            },
            pos,
        ),
    )
}

fn de_header(data: &[u8], pos: usize) -> (r: Option<(NodeType, NodeStatus, u16, u16, u64, NodeCapabilities, usize)>)
    requires
        pos <= data@.len(),
    ensures
        r is Some <==> spec_de_header(data@, pos as int) is Some,
        r matches Some((t, s, sp, ap, ts, c, p)) ==> spec_de_header(data@, pos as int) == Some(
            (
                HeaderView {
                    node_type: t,
                    status: s,
                    ssh_port: sp,
                    api_port: ap,
                    timestamp: ts,
                    capabilities: c,
                },
                p as int,
            ),
        ) && p <= data@.len(),
{
    let (version, pos) = match de_u8(data, pos) {
        Some(x) => x,
        None => {
            return None;
        },
    };
    if version != PAYLOAD_VERSION {
        return None;
    }
    let (type_byte, pos) = match de_u8(data, pos) {
        Some(x) => x,
        None => {
            return None;
        },
    };
    let node_type = if type_byte == 0 {
        NodeType::Rental
    } else if type_byte == 1 {
        NodeType::Client
    } else if type_byte == 2 {
        NodeType::Coordinator
    } else {
        return None;
    };
    let (status_byte, pos) = match de_u8(data, pos) {
        Some(x) => x,
        None => {
            return None;
        },
    };
    let status = if status_byte == 0 {
        NodeStatus::Available
    } else if status_byte == 1 {
        NodeStatus::Busy
    } else if status_byte == 2 {
        NodeStatus::Maintenance
    } else if status_byte == 3 {
        NodeStatus::Offline
    } else {
        return None;
    };
    let (ssh_port, pos) = match de_u16(data, pos) {
        Some(x) => x,
        None => {
            return None;
        },
    };
    let (api_port, pos) = match de_u16(data, pos) {
        Some(x) => x,
        None => {
            return None;
        },
    };
    let (timestamp, pos) = match de_u64(data, pos) {
        Some(x) => x,
        None => {
            return None;
        },
    };
    let (capabilities, pos) = match de_caps(data, pos) {
        Some(x) => x,
        None => {
            return None;
        },
    };
    Some((node_type, status, ssh_port, api_port, timestamp, capabilities, pos))
}

/// Decode one advertisement record out of a datagram. Returns `None` on any
/// malformed input: short buffer, wrong version, unknown tag, bad UTF-8, or
/// trailing bytes.
pub fn parse_advertisement(data: &[u8]) -> (r: Option<NodeAdvertisement>)
    ensures
        r is Some <==> spec_parse_advertisement(data@) is Some,
        r matches Some(adv) ==> spec_parse_advertisement(data@) == Some(adv@),
{
    let (node_type, status, ssh_port, api_port, timestamp, capabilities, pos) = match de_header(
        data,
        0,
    ) {
        Some(x) => x,
        None => {
            return None;
        },
    };
    let (node_id, pos) = match de_string(data, pos) {
        Some(x) => x,
        None => {
            return None;
        },
    };
    let (ip_address, pos) = match de_string(data, pos) {
        Some(x) => x,
        None => {
            return None;
        },
    };
    let (zerotier_ip, pos) = match de_opt_string(data, pos) {
        Some(x) => x,
        None => {
            return None;
        },
    };
    let (network_id, pos) = match de_string(data, pos) {
        Some(x) => x,
        None => {
            return None;
        },
    };
    if pos != data.len() {
        return None;
    }
    Some(
        NodeAdvertisement {
            node_id,
            node_type,
            ip_address,
            zerotier_ip,
            ssh_port,
            api_port,
            capabilities,
            status,
            timestamp,
            network_id,
        },
    )
}

// ---------------------------------------------------------------------------
// The round-trip law
// ---------------------------------------------------------------------------

#[verifier::rlimit(100)]
#[verifier::spinoff_prover]
pub proof fn lemma_de_caps_at(data: Seq<u8>, pos: int, c: NodeCapabilities)
    requires
        0 <= pos,
        pos + spec_ser_caps(c).len() <= data.len(),
        data.subrange(pos, pos + spec_ser_caps(c).len()) == spec_ser_caps(c),
    ensures
        spec_de_caps(data, pos) == Some((c, pos + spec_ser_caps(c).len())),
{
    let end = pos + spec_ser_caps(c).len();
    let q1 = spec_ser_u32(c.cpu_cores);
    let q2 = spec_ser_u32(c.memory_gb);
    let q3 = spec_ser_u32(c.gpu_count);
    let q4 = spec_ser_u32(c.gpu_memory_gb);
    let q5 = spec_ser_u32(c.disk_space_gb);
    let q6 = spec_ser_u32(c.network_speed_mbps);
    let q7 = spec_ser_bool(c.supports_docker);
    let q8 = spec_ser_bool(c.supports_gpu);
    let q9 = spec_ser_u32(c.max_concurrent_jobs);
    lemma_take_piece(data, pos, end, q1, q2 + (q3 + (q4 + (q5 + (q6 + (q7 + (q8 + q9)))))));
    lemma_de_u32_at(data, pos, c.cpu_cores);
    lemma_take_piece(data, pos + 4, end, q2, q3 + (q4 + (q5 + (q6 + (q7 + (q8 + q9))))));
    lemma_de_u32_at(data, pos + 4, c.memory_gb);
    lemma_take_piece(data, pos + 8, end, q3, q4 + (q5 + (q6 + (q7 + (q8 + q9)))));
    lemma_de_u32_at(data, pos + 8, c.gpu_count);
    lemma_take_piece(data, pos + 12, end, q4, q5 + (q6 + (q7 + (q8 + q9))));
    lemma_de_u32_at(data, pos + 12, c.gpu_memory_gb);
    lemma_take_piece(data, pos + 16, end, q5, q6 + (q7 + (q8 + q9)));
    lemma_de_u32_at(data, pos + 16, c.disk_space_gb);
    lemma_take_piece(data, pos + 20, end, q6, q7 + (q8 + q9));
    lemma_de_u32_at(data, pos + 20, c.network_speed_mbps);
    lemma_take_piece(data, pos + 24, end, q7, q8 + q9);
    lemma_de_bool_at(data, pos + 24, c.supports_docker);
    lemma_take_piece(data, pos + 25, end, q8, q9);
    lemma_de_bool_at(data, pos + 25, c.supports_gpu);
    assert(data.subrange(pos + 26, pos + 30) == q9);
    lemma_de_u32_at(data, pos + 26, c.max_concurrent_jobs);
}

#[verifier::rlimit(100)]
#[verifier::spinoff_prover]
pub proof fn lemma_de_header_at(data: Seq<u8>, pos: int, v: AdvView)
    requires
        0 <= pos,
        pos + spec_ser_header(v).len() <= data.len(),
        data.subrange(pos, pos + spec_ser_header(v).len()) == spec_ser_header(v),
    ensures
        spec_ser_header(v).len() == 45,
        spec_de_header(data, pos) == Some(
            (
                HeaderView {
                    node_type: v.node_type,
                    status: v.status,
                    ssh_port: v.ssh_port,
                    api_port: v.api_port,
                    timestamp: v.timestamp,
                    capabilities: v.capabilities,
                },
                pos + 45,
            ),
        ),
{
    let end = pos + spec_ser_header(v).len();
    let q1 = spec_ser_u8(PAYLOAD_VERSION);
    let q2 = spec_ser_u8(spec_type_tag(v.node_type));
    let q3 = spec_ser_u8(spec_status_tag(v.status));
    let q4 = spec_ser_u16(v.ssh_port);
    let q5 = spec_ser_u16(v.api_port);
    let q6 = spec_ser_u64(v.timestamp);
    let q7 = spec_ser_caps(v.capabilities);
    assert(q7.len() == 30);
    lemma_take_piece(data, pos, end, q1, q2 + (q3 + (q4 + (q5 + (q6 + q7)))));
    lemma_de_u8_at(data, pos, PAYLOAD_VERSION);
    lemma_take_piece(data, pos + 1, end, q2, q3 + (q4 + (q5 + (q6 + q7))));
    lemma_de_u8_at(data, pos + 1, spec_type_tag(v.node_type));
    lemma_take_piece(data, pos + 2, end, q3, q4 + (q5 + (q6 + q7)));
    lemma_de_u8_at(data, pos + 2, spec_status_tag(v.status));
    lemma_take_piece(data, pos + 3, end, q4, q5 + (q6 + q7));
    lemma_de_u16_at(data, pos + 3, v.ssh_port);
    lemma_take_piece(data, pos + 5, end, q5, q6 + q7);
    lemma_de_u16_at(data, pos + 5, v.api_port);
    lemma_take_piece(data, pos + 7, end, q6, q7);
    lemma_de_u64_at(data, pos + 7, v.timestamp);
    assert(data.subrange(pos + 15, pos + 45) == q7);
    lemma_de_caps_at(data, pos + 15, v.capabilities);
    assert(spec_type_of_tag(spec_type_tag(v.node_type)) == Some(v.node_type));
    assert(spec_status_of_tag(spec_status_tag(v.status)) == Some(v.status));
}

// ---------------------------------------------------------------------------
// Constructors
// ---------------------------------------------------------------------------

/// Relies on std's SystemTime::now and duration_since: the system clock's
/// seconds past the Unix epoch, or 0 if the clock reads before the epoch.
/// Nothing is promised of a clock reading.
#[verifier::external_body]
pub(crate) fn current_timestamp() -> u64 {
    match std::time::SystemTime::now().duration_since(std::time::UNIX_EPOCH) {
        Ok(d) => d.as_secs(),
        Err(_) => 0,
    }
}

/// Build the advertisement a rental node broadcasts: standard ports, status
/// available, stamped with the current time.
pub fn create_rental_advertisement(
    node_id: String,
    ip_address: String,
    zerotier_ip: Option<String>,
    capabilities: NodeCapabilities,
    network_id: String,
) -> (r: NodeAdvertisement)
    ensures
        r.node_id == node_id,
        r.node_type == NodeType::Rental,
        r.ip_address == ip_address,
        r.zerotier_ip == zerotier_ip,
        r.ssh_port == 22,
        r.api_port == 8080,
        r.capabilities == capabilities,
        r.status == NodeStatus::Available,
        r.network_id == network_id,
{
    NodeAdvertisement {
        node_id,
        node_type: NodeType::Rental,
        ip_address,
        zerotier_ip,
        ssh_port: 22,
        api_port: 8080,
        capabilities,
        status: NodeStatus::Available,
        timestamp: current_timestamp(),
        network_id,
    }
}

/// Build the advertisement a client node broadcasts: standard ports, no
/// capabilities to offer, status available, stamped with the current time.
pub fn create_client_advertisement(
    node_id: String,
    ip_address: String,
    zerotier_ip: Option<String>,
    network_id: String,
) -> (r: NodeAdvertisement)
    ensures
        r.node_id == node_id,
        r.node_type == NodeType::Client,
        r.ip_address == ip_address,
        r.zerotier_ip == zerotier_ip,
        r.ssh_port == 22,
        r.api_port == 8080,
        r.capabilities == (NodeCapabilities {
            cpu_cores: 0,
            memory_gb: 0,
            gpu_count: 0,
            gpu_memory_gb: 0,
            disk_space_gb: 0,
            network_speed_mbps: 0,
            supports_docker: false,
            supports_gpu: false,
            max_concurrent_jobs: 0,
        }),
        r.status == NodeStatus::Available,
        r.network_id == network_id,
{
    NodeAdvertisement {
        node_id,
        node_type: NodeType::Client,
        ip_address,
        zerotier_ip,
        ssh_port: 22,
        api_port: 8080,
        capabilities: NodeCapabilities {
            cpu_cores: 0,
            memory_gb: 0,
            gpu_count: 0,
            gpu_memory_gb: 0,
            disk_space_gb: 0,
            network_speed_mbps: 0,
            supports_docker: false,
            supports_gpu: false,
            max_concurrent_jobs: 0,
        },
        status: NodeStatus::Available,
        timestamp: current_timestamp(),
        network_id,
    }
}

/// The round-trip law of the datagram format: any encodable record decodes,
/// from its own encoding, back to exactly the same record, field for field.
#[verifier::rlimit(100)]
pub proof fn lemma_advertisement_round_trip(v: AdvView)
    requires
        adv_encodable(v),
    ensures
        spec_parse_advertisement(spec_ser_adv(v)) == Some(v),
{
    let data = spec_ser_adv(v);
    let p1 = spec_ser_header(v);
    let p2 = spec_ser_string(v.node_id);
    let p3 = spec_ser_string(v.ip_address);
    let p4 = spec_ser_opt_string(v.zerotier_ip);
    let p5 = spec_ser_string(v.network_id);
    let len = data.len() as int;

    assert(data.subrange(0, len) =~= data);
    lemma_take_piece(data, 0, len, p1, p2 + (p3 + (p4 + p5)));
    lemma_de_header_at(data, 0, v);
    let o1 = p1.len() as int;

    lemma_take_piece(data, o1, len, p2, p3 + (p4 + p5));
    lemma_de_string_at(data, o1, v.node_id);
    let o2 = o1 + p2.len() as int;

    lemma_take_piece(data, o2, len, p3, p4 + p5);
    lemma_de_string_at(data, o2, v.ip_address);
    let o3 = o2 + p3.len() as int;

    lemma_take_piece(data, o3, len, p4, p5);
    lemma_de_opt_string_at(data, o3, v.zerotier_ip);
    let o4 = o3 + p4.len() as int;

    assert(data.subrange(o4, o4 + p5.len() as int) == p5);
    lemma_de_string_at(data, o4, v.network_id);
    let o5 = o4 + p5.len() as int;
    assert(o5 == len);

    assert(spec_de_adv(data, 0) matches Some((w, p)) && w == v && p == len);
}

} // verus!

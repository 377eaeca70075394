//! Addresses of the servers, and small matters of files.

use crate::address::{AddrView, SocketAddr};
use crate::ids::join;
use crate::server::ServerIps;
use crate::text::{
    decimal,
    lines,
    lines_of,
    number,
    same_text,
    text_to_u32,
    texts,
    u32_to_text,
};
use vstd::prelude::*;
use vstd::string::*;

verus! {

/// The ports of a server in distributed mode.
#[derive(Clone, Copy, Debug, PartialEq, Eq, Structural)]
pub struct Ports {
    pub service: u16,
    pub election: u16,
    pub sendback: u16,
}

/// What is known of a server's addresses: in local mode its election address,
/// in distributed mode its service, election and sending-back addresses.
#[derive(Debug, PartialEq, Eq)]
pub enum Ips<T> {
    Local(T),
    Dist(T, T, T),
}

/// `ip`, a colon and a port.
pub open spec fn ip_and_port(ip: Seq<char>, port: u16) -> Seq<char> {
    ip + seq![':'] + decimal(port as nat)
}

fn with_port_text(ip: &str, port: u16) -> (t: String)
    ensures
        t@ == ip_and_port(ip@, port),
{
    proof {
        reveal_strlit(":");
        assert(":"@ == seq![':']);
    }
    join(ip, ":", u32_to_text(port as u32).as_str())
}

/// Whether `found` holds the texts to read the addresses of the server `ip`
/// from: in local mode `ip` itself, which names the election port; in
/// distributed mode `ip` with each of the known ports. There is no other mode.
pub open spec fn is_ip_text(
    found: Option<Ips<String>>,
    ip: Seq<char>,
    mode: Seq<char>,
    ports: Ports,
) -> bool {
    if mode == "local"@ {
        found matches Some(Ips::Local(t)) && t@ == ip
    } else if mode == "dist"@ {
        found matches Some(Ips::Dist(service, election, sendback)) && {
            &&& service@ == ip_and_port(ip, ports.service)
            &&& election@ == ip_and_port(ip, ports.election)
            &&& sendback@ == ip_and_port(ip, ports.sendback)
        }
    } else {
        found is None
    }
}

/// The texts to read the addresses of the server `ip` from, if there is such a
/// mode.
pub fn ip_texts(ip: &str, mode: &str, ports: &Ports) -> (found: Option<Ips<String>>)
    ensures
        is_ip_text(found, ip@, mode@, *ports),
{
    if same_text(mode, "local") {
        Some(Ips::Local(ip.to_owned()))
    } else if same_text(mode, "dist") {
        Some(
            Ips::Dist(
                with_port_text(ip, ports.service),
                with_port_text(ip, ports.election),
                with_port_text(ip, ports.sendback),
            ),
        )
    } else {
        None
    }
}

/// The texts to read the addresses of the servers from, one server for each
/// line of `contents`. There are none where there is a line but no such mode.
pub fn peer_texts(contents: &str, mode: &str, ports: &Ports) -> (found: Option<Vec<Ips<String>>>)
    ensures
        found is None <==> lines_of(contents@).len() > 0 && mode@ != "local"@ && mode@ != "dist"@,
        found matches Some(f) ==> {
            &&& f@.len() == lines_of(contents@).len()
            &&& forall|i: int|
                0 <= i < f@.len() ==> is_ip_text(
                    Some(#[trigger] f@[i]),
                    lines_of(contents@)[i],
                    mode@,
                    *ports,
                )
        },
{
    let ips = lines(contents);
    let mut found: Vec<Ips<String>> = Vec::new();
    let mut i: usize = 0;
    proof {
        assert(texts(ips@).len() == ips@.len());
    }
    while i < ips.len()
        invariant
            i <= ips@.len(),
            found@.len() == i,
            texts(ips@) == lines_of(contents@),
            texts(ips@).len() == ips@.len(),
            i > 0 ==> mode@ == "local"@ || mode@ == "dist"@,
            forall|j: int|
                0 <= j < i ==> is_ip_text(
                    Some(#[trigger] found@[j]),
                    lines_of(contents@)[j],
                    mode@,
                    *ports,
                ),
        decreases ips@.len() - i,
    {
        proof {
            assert(texts(ips@)[i as int] == ips@[i as int]@);
        }
        match ip_texts(ips[i].as_str(), mode, ports) {
            None => {
                return None;
            },
            Some(t) => {
                found.push(t);
            },
        }
        i = i + 1;
    }
    Some(found)
}

/// Whether the ports next to a local server's election port are ports.
pub open spec fn has_neighbours(known: Ips<SocketAddr>) -> bool {
    known matches Ips::Local(election) ==> 0 < election@.port() < u16::MAX
}

/// The service address of a server. In local mode its port comes just before
/// the election port.
pub open spec fn service_of(known: Ips<SocketAddr>) -> AddrView {
    match known {
        Ips::Local(election) => election@.with_port((election@.port() - 1) as u16),
        Ips::Dist(service, election, sendback) => service@,
    }
}

/// Whether `ips` are the addresses of the server. In local mode the service
/// port comes just before the election port, and the sending-back port just
/// after it.
pub open spec fn is_ips(ips: ServerIps, known: Ips<SocketAddr>) -> bool {
    &&& ips.0@ == service_of(known)
    &&& match known {
        Ips::Local(election) => {
            &&& ips.1 == election
            &&& ips.2@ == election@.with_port((election@.port() + 1) as u16)
        },
        Ips::Dist(service, election, sendback) => ips == (service, election, sendback),
    }
}

/// The addresses of a server.
pub fn get_ips(known: &Ips<SocketAddr>) -> (ips: ServerIps)
    requires
        has_neighbours(*known),
    ensures
        is_ips(ips, *known),
{
    match known {
        Ips::Local(election) => {
            let port: u16 = election.port();
            (election.with_port(port - 1), election.clone(), election.with_port(port + 1))
        },
        Ips::Dist(service, election, sendback) => (
            service.clone(),
            election.clone(),
            sendback.clone(),
        ),
    }
}

/// Whether a server is another one than that with the service address `own`.
pub open spec fn is_peer(own: AddrView) -> spec_fn(Ips<SocketAddr>) -> bool {
    |known: Ips<SocketAddr>| service_of(known) != own
}

/// The addresses of the servers, in the order given, without this one, which
/// is known by its service address.
pub fn get_peer_servers(known: &Vec<Ips<SocketAddr>>, own_ips: &ServerIps) -> (peers: Vec<
    ServerIps,
>)
    requires
        forall|i: int| 0 <= i < known@.len() ==> has_neighbours(#[trigger] known@[i]),
    ensures
        peers@.len() == known@.filter(is_peer(own_ips.0@)).len(),
        forall|i: int|
            0 <= i < peers@.len() ==> is_ips(
                #[trigger] peers@[i],
                known@.filter(is_peer(own_ips.0@))[i],
            ),
{
    let mut peers: Vec<ServerIps> = Vec::new();
    let mut i: usize = 0;
    let ghost other = is_peer(own_ips.0@);
    proof {
        reveal(Seq::filter);
        assert(known@.take(0).filter(other).len() == 0);
    }
    while i < known.len()
        invariant
            i <= known@.len(),
            other == is_peer(own_ips.0@),
            forall|j: int| 0 <= j < known@.len() ==> has_neighbours(#[trigger] known@[j]),
            peers@.len() == known@.take(i as int).filter(other).len(),
            forall|j: int|
                0 <= j < peers@.len() ==> is_ips(
                    #[trigger] peers@[j],
                    known@.take(i as int).filter(other)[j],
                ),
        decreases known@.len() - i,
    {
        proof {
            reveal(Seq::filter);
            assert(known@.take(i + 1).drop_last() == known@.take(i as int));
            assert(known@.take(i + 1).last() == known@[i as int]);
        }
        let ips = get_ips(&known[i]);
        if !own_ips.0.same(&ips.0) {
            peers.push(ips);
        }
        i = i + 1;
    }
    proof {
        assert(known@.take(i as int) == known@);
    }
    peers
}

/// What is known of a server's addresses to a client: in local mode its
/// election address, else its service and election addresses.
#[derive(Debug, PartialEq, Eq)]
pub enum CloudIps<T> {
    Local(T),
    Other(T, T),
}

/// Whether `known` holds the texts to read the addresses of the server `ip`
/// from.
pub open spec fn is_cloud_text(
    known: CloudIps<String>,
    ip: Seq<char>,
    mode: Seq<char>,
    ports: Ports,
) -> bool {
    if mode == "local"@ {
        known matches CloudIps::Local(t) && t@ == ip
    } else {
        known matches CloudIps::Other(service, election) && service@ == ip_and_port(
            ip,
            ports.service,
        ) && election@ == ip_and_port(ip, ports.election)
    }
}

/// The texts to read the addresses of the servers from, one server for each
/// line of `contents`.
pub fn cloud_texts(contents: &str, mode: &str, ports: &Ports) -> (known: Vec<CloudIps<String>>)
    ensures
        known@.len() == lines_of(contents@).len(),
        forall|i: int|
            0 <= i < known@.len() ==> is_cloud_text(
                #[trigger] known@[i],
                lines_of(contents@)[i],
                mode@,
                *ports,
            ),
{
    let ips = lines(contents);
    let local = same_text(mode, "local");
    let mut known: Vec<CloudIps<String>> = Vec::new();
    let mut i: usize = 0;
    while i < ips.len()
        invariant
            i <= ips@.len(),
            known@.len() == i,
            texts(ips@) == lines_of(contents@),
            local == (mode@ == "local"@),
            forall|j: int|
                0 <= j < i ==> is_cloud_text(
                    #[trigger] known@[j],
                    lines_of(contents@)[j],
                    mode@,
                    *ports,
                ),
        decreases ips@.len() - i,
    {
        let ip = &ips[i];
        proof {
            assert(texts(ips@)[i as int] == ip@);
        }
        if local {
            known.push(CloudIps::Local(ip.clone()));
        } else {
            known.push(
                CloudIps::Other(
                    with_port_text(ip.as_str(), ports.service),
                    with_port_text(ip.as_str(), ports.election),
                ),
            );
        }
        i = i + 1;
    }
    known
}

/// Whether `pair` holds the service and the election address of a server.
pub open spec fn is_cloud_server(
    pair: (SocketAddr, SocketAddr),
    known: CloudIps<SocketAddr>,
) -> bool {
    match known {
        CloudIps::Local(election) => pair.0@ == election@.with_port(
            (election@.port() - 1) as u16,
        ) && pair.1 == election,
        CloudIps::Other(service, election) => pair == (service, election),
    }
}

/// The service and election addresses of the servers. In local mode, which
/// knows hosts of the fourth version only, the service port comes just before
/// the election port.
pub fn get_cloud_servers(known: &Vec<CloudIps<SocketAddr>>) -> (servers: Vec<
    (SocketAddr, SocketAddr),
>)
    requires
        forall|i: int|
            0 <= i < known@.len() ==> (#[trigger] known@[i] matches CloudIps::Local(election)
                ==> election is V4 && election@.port() > 0),
    ensures
        servers@.len() == known@.len(),
        forall|i: int|
            0 <= i < servers@.len() ==> is_cloud_server(#[trigger] servers@[i], known@[i]),
{
    let mut servers: Vec<(SocketAddr, SocketAddr)> = Vec::new();
    let mut i: usize = 0;
    while i < known.len()
        invariant
            i <= known@.len(),
            servers@.len() == i,
            forall|j: int|
                0 <= j < known@.len() ==> (#[trigger] known@[j] matches CloudIps::Local(election)
                    ==> election is V4 && election@.port() > 0),
            forall|j: int| 0 <= j < i ==> is_cloud_server(#[trigger] servers@[j], known@[j]),
        decreases known@.len() - i,
    {
        let ghost k = known@[i as int];
        match &known[i] {
            CloudIps::Local(election) => {
                let port: u16 = election.port();
                servers.push((election.with_port(port - 1), election.clone()));
            },
            CloudIps::Other(service, election) => {
                servers.push((service.clone(), election.clone()));
            },
        }
        i = i + 1;
    }
    servers
}

/// The number of the next request, as the log file gives it: 0 without a file,
/// 1 where the file holds no number.
pub open spec fn logged_req_id(contents: Option<Seq<char>>) -> u32 {
    match contents {
        None => 0,
        Some(c) => match number(c) {
            Some(n) => n,
            None => 1,
        },
    }
}

/// The number of the next request, from what the log file holds, if it can be
/// read.
pub fn get_req_id_log(contents: Option<&str>) -> (id: u32)
    ensures
        id == logged_req_id(
            match contents {
                Some(c) => Some(c@),
                None => None,
            },
        ),
{
    match contents {
        None => 0,
        Some(c) => match text_to_u32(c) {
            Some(n) => n,
            None => 1,
        },
    }
}

/// The names of pictures, one in each line.
pub fn get_pic_paths(contents: &str) -> (paths: Vec<String>)
    ensures
        texts(paths@) == lines_of(contents@),
{
    lines(contents)
}

/// How the creation of a directory ended; a failure comes with its
/// description.
#[derive(Debug, PartialEq, Eq)]
pub enum DirOutcome {
    Created,
    AlreadyExists,
    Failed(String),
}

/// What there is to say about the creation of a directory.
pub open spec fn dir_report(path: Seq<char>, outcome: DirOutcome) -> Option<Seq<char>> {
    match outcome {
        DirOutcome::Created => None,
        DirOutcome::AlreadyExists => Some("Directory '"@ + path + "' already exists."@),
        DirOutcome::Failed(error) => Some(
            "Error creating directory '"@ + path + "': "@ + error@,
        ),
    }
}

/// What there is to say about the creation of the directory `path`.
pub fn mkdir(path: &str, outcome: &DirOutcome) -> (report: Option<String>)
    ensures
        report is Some <==> dir_report(path@, *outcome) is Some,
        report matches Some(r) ==> dir_report(path@, *outcome) == Some(r@),
{
    match outcome {
        DirOutcome::Created => None,
        DirOutcome::AlreadyExists => Some(join("Directory '", path, "' already exists.")),
        DirOutcome::Failed(error) => Some(
            join("Error creating directory '", path, "': ").concat(error.as_str()),
        ),
    }
}

/// What there is to say about the creation of the directory for encrypted
/// pictures.
pub fn create_output_dirs(encrypted_pics_path: &str, outcome: &DirOutcome) -> (report: Option<
    String,
>)
    ensures
        report is Some <==> dir_report(encrypted_pics_path@, *outcome) is Some,
        report matches Some(r) ==> dir_report(encrypted_pics_path@, *outcome) == Some(r@),
{
    mkdir(encrypted_pics_path, outcome)
}

/// What a file system says of something that is there.
#[derive(Clone, Copy, Debug, PartialEq, Eq, Structural)]
pub struct FileKind {
    pub is_file: bool,
    pub is_dir: bool,
}

/// Whether there is a file or a directory, from what the file system says, if
/// it says anything.
pub fn file_exists(metadata: Option<FileKind>) -> (exists_there: bool)
    ensures
        exists_there == (metadata matches Some(m) && (m.is_file || m.is_dir)),
{
    match metadata {
        Some(m) => m.is_file || m.is_dir,
        None => false,
    }
}

} // verus!

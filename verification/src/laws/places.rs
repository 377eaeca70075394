//! What holds of addresses, names and paths.

use crate::address::{AddrView, SocketAddr};
use crate::client::{bare_name, file_part, png_name};
use crate::ids::{image_id_of, path_of, request_id_of};
use crate::laws::words::{law_path_leads_to_its_last_name, law_stem_is_the_name_without_its_ending};
use crate::server::ServerIps;
use crate::text::{
    decimal,
    file_name_of,
    lemma_split_first,
    lemma_split_last,
    lemma_split_none,
    number,
    stem_of,
};
use crate::utils::{
    dir_report,
    has_neighbours,
    ip_and_port,
    is_cloud_server,
    is_cloud_text,
    is_ip_text,
    is_ips,
    is_peer,
    logged_req_id,
    service_of,
    CloudIps,
    DirOutcome,
    Ips,
    Ports,
};
use vstd::prelude::*;
use vstd::string::*;

verus! {

// ---------------------------------------------------------------------------
// Addresses
// ---------------------------------------------------------------------------

/// An address of the fourth version stands for its host and port, and is shown
/// with a colon between them. With another port it is on the same host.
pub proof fn law_fourth_version_addresses(addr: SocketAddr, host: String, port: u16, other: u16)
    requires
        addr == (SocketAddr::V4 { ip: host, port }),
    ensures
        addr@ == (AddrView::V4 { ip: host@, port }),
        addr@.port() == port,
        addr@.text() == host@ + ":"@ + decimal(port as nat),
        addr@.with_port(other) == (AddrView::V4 { ip: host@, port: other }),
        addr@.with_port(other).port() == other,
        addr@.with_port(other).text() == host@ + ":"@ + decimal(other as nat),
{
    reveal_strlit(":");
    assert(":"@ == seq![':']);
}

/// An address of the sixth version stands for its host, port, flow label and
/// scope. It is shown with brackets round the host, and with a scope where it
/// has one. With another port it is on the same host, without label and scope.
pub proof fn law_sixth_version_addresses(
    addr: SocketAddr,
    host: String,
    port: u16,
    flowinfo: u32,
    scope_id: u32,
    other: u16,
)
    requires
        addr == (SocketAddr::V6 { ip: host, port, flowinfo, scope_id }),
    ensures
        addr@ == (AddrView::V6 { ip: host@, port, flowinfo, scope_id }),
        addr@.port() == port,
        scope_id == 0 ==> addr@.text() == "["@ + host@ + "]:"@ + decimal(port as nat),
        scope_id != 0 ==> addr@.text() == "["@ + host@ + "%"@ + decimal(scope_id as nat) + "]:"@
            + decimal(port as nat),
        addr@.with_port(other) == (AddrView::V6 { ip: host@, port: other, flowinfo: 0, scope_id: 0 }),
        addr@.with_port(other).port() == other,
{
    reveal_strlit("[");
    reveal_strlit("]:");
    reveal_strlit("%");
    assert("["@ == seq!['[']);
    assert("]:"@ == seq![']', ':']);
    assert("%"@ == seq!['%']);
    let shown = if scope_id == 0 {
        "["@ + host@ + "]:"@ + decimal(port as nat)
    } else {
        "["@ + host@ + "%"@ + decimal(scope_id as nat) + "]:"@ + decimal(port as nat)
    };
    assert(addr@.text() == shown);
}

// ---------------------------------------------------------------------------
// Names
// ---------------------------------------------------------------------------

/// A request is named by the address of its client, as it is shown, a colon and
/// its number; a shared picture by its owner, its peer and its file name, with
/// `&` between them; a file by its directory, a slash and its name.
pub proof fn law_names_are_made_of_their_parts(
    client: AddrView,
    id: u32,
    a: Seq<char>,
    b: Seq<char>,
    c: Seq<char>,
)
    ensures
        request_id_of(client, id) == client.text() + ":"@ + decimal(id as nat),
        image_id_of(a, b, c) == a + "&"@ + b + "&"@ + c,
        path_of(a, b) == a + "/"@ + b,
{
    reveal_strlit(":");
    reveal_strlit("&");
    reveal_strlit("/");
    assert(":"@ == seq![':']);
    assert("&"@ == seq!['&']);
    assert("/"@ == seq!['/']);
}

/// The file part of a picture's name is what stands behind its last `&`, or the
/// whole where it has none.
pub proof fn law_file_part_comes_last(before: Seq<char>, name: Seq<char>)
    requires
        !name.contains('&'),
    ensures
        file_part(before + seq!['&'] + name) == name,
        file_part(name) == name,
{
    lemma_split_last(before, '&', name);
    lemma_split_none(name, '&');
}

/// A share, a view and an update speak of a picture by one name: the name of
/// the share, and the name that owner, peer and its file part make up again.
pub proof fn law_a_picture_has_one_name(owner: Seq<char>, peer: Seq<char>, name: Seq<char>)
    requires
        !name.contains('&'),
    ensures
        file_part(image_id_of(owner, peer, name)) == name,
        image_id_of(owner, peer, file_part(image_id_of(owner, peer, name))) == image_id_of(
            owner,
            peer,
            name,
        ),
{
    law_file_part_comes_last(owner + seq!['&'] + peer, name);
}

/// The bare name of a picture is what stands before its first dot, or the whole
/// where it has none, and its encrypted file is named by that.
pub proof fn law_bare_name_comes_first(base: Seq<char>, rest: Seq<char>)
    requires
        !base.contains('.'),
    ensures
        bare_name(base + seq!['.'] + rest) == base,
        bare_name(base) == base,
        png_name(base + seq!['.'] + rest) == base + ".png"@,
        png_name(base) == base + ".png"@,
{
    lemma_split_first(base, '.', rest);
    lemma_split_none(base, '.');
}

/// The encryption of a picture whose name has one dot is saved under what
/// stands before that dot, however long its ending is, and a share of the
/// picture reads that same file. So it is for a name without a dot.
pub proof fn law_encrypted_picture_is_saved_where_a_share_reads_it(
    dir: Seq<char>,
    base: Seq<char>,
    ending: Seq<char>,
)
    requires
        base.len() > 0,
        !base.contains('.'),
        !ending.contains('.'),
    ensures
        path_of(dir, stem_of(base + seq!['.'] + ending) + ".png"@) == path_of(dir, base + ".png"@),
        path_of(dir, png_name(base + seq!['.'] + ending)) == path_of(dir, base + ".png"@),
        path_of(dir, stem_of(base) + ".png"@) == path_of(dir, base + ".png"@),
        path_of(dir, png_name(base)) == path_of(dir, base + ".png"@),
{
    law_stem_is_the_name_without_its_ending(base, ending);
    law_stem_is_the_name_without_its_ending(base, base);
    law_bare_name_comes_first(base, ending);
}

/// The path of a file leads to it.
pub proof fn law_path_of_a_file_leads_to_it(dir: Seq<char>, name: Seq<char>)
    requires
        !name.contains('/'),
        name.len() > 0,
        name != seq!['.'],
        name != seq!['.', '.'],
    ensures
        file_name_of(path_of(dir, name)) == Some(name),
{
    law_path_leads_to_its_last_name(dir, name);
}

// ---------------------------------------------------------------------------
// Addresses of the servers
// ---------------------------------------------------------------------------

/// In local mode the text of a server's line is read as it is; in distributed
/// mode it is a host, which each of the three ports follows after a colon. In
/// any other mode there is nothing to read.
pub proof fn law_server_texts_follow_the_mode(
    found: Option<Ips<String>>,
    ip: Seq<char>,
    mode: Seq<char>,
    ports: Ports,
)
    requires
        is_ip_text(found, ip, mode, ports),
    ensures
        mode == "local"@ ==> (found matches Some(Ips::Local(t)) && t@ == ip),
        mode == "dist"@ ==> (found matches Some(Ips::Dist(service, election, sendback)) && service@
            == ip + ":"@ + decimal(ports.service as nat) && election@ == ip + ":"@ + decimal(
            ports.election as nat,
        ) && sendback@ == ip + ":"@ + decimal(ports.sendback as nat)),
        found is None <==> mode != "local"@ && mode != "dist"@,
{
    reveal_strlit(":");
    reveal_strlit("local");
    reveal_strlit("dist");
    assert(":"@ == seq![':']);
    assert("local"@.len() != "dist"@.len());
}

/// In local mode the text of a server's line is read as it is; in any other it
/// is a host, which the service and the election port follow after a colon.
pub proof fn law_cloud_texts_follow_the_mode(
    known: CloudIps<String>,
    ip: Seq<char>,
    mode: Seq<char>,
    ports: Ports,
)
    requires
        is_cloud_text(known, ip, mode, ports),
    ensures
        mode == "local"@ ==> (known matches CloudIps::Local(t) && t@ == ip),
        mode != "local"@ ==> (known matches CloudIps::Other(service, election) && service@ == ip
            + ":"@ + decimal(ports.service as nat) && election@ == ip + ":"@ + decimal(
            ports.election as nat,
        )),
        ip_and_port(ip, ports.service) == ip + ":"@ + decimal(ports.service as nat),
{
    reveal_strlit(":");
    assert(":"@ == seq![':']);
}

/// In local mode the three ports of a server follow each other: service,
/// election, sending back. They need a port on each side of the election port.
/// In distributed mode the addresses are those that are known.
pub proof fn law_ports_of_a_server_follow_each_other(ips: ServerIps, known: Ips<SocketAddr>)
    requires
        is_ips(ips, known),
        has_neighbours(known),
    ensures
        known matches Ips::Local(election) ==> {
            &&& ips.1 == election
            &&& ips.0@.port() + 1 == election@.port()
            &&& ips.2@.port() == election@.port() + 1
            &&& ips.0@ == election@.with_port(ips.0@.port())
            &&& ips.2@ == election@.with_port(ips.2@.port())
        },
        known matches Ips::Dist(service, election, sendback) ==> ips.0 == service && ips.1
            == election && ips.2 == sendback,
        ips.0@ == service_of(known),
{
}

/// Whether the addresses of a server can be told: in local mode there must be a
/// port on each side of the election port, in distributed mode always.
pub proof fn law_which_servers_have_neighbours(election: SocketAddr, a: SocketAddr, b: SocketAddr)
    ensures
        has_neighbours(Ips::Local(election)) <==> election@.port() != 0 && election@.port()
            != 65535,
        has_neighbours(Ips::Dist(a, election, b)),
        service_of(Ips::Dist(a, election, b)) == a@,
{
}

/// A server is a peer of another exactly if their service addresses differ.
pub proof fn law_peers_have_other_service_addresses(own: AddrView, known: Ips<SocketAddr>)
    ensures
        is_peer(own)(known) <==> service_of(known) != own,
{
}

/// To a client, in local mode the service port of a server comes just before
/// its election port; else the addresses are those that are known.
pub proof fn law_cloud_servers_have_two_addresses(
    pair: (SocketAddr, SocketAddr),
    known: CloudIps<SocketAddr>,
)
    requires
        is_cloud_server(pair, known),
        known matches CloudIps::Local(election) ==> election@.port() > 0,
    ensures
        known matches CloudIps::Local(election) ==> pair.1 == election && pair.0@.port() + 1
            == election@.port() && pair.0@ == election@.with_port(pair.0@.port()),
        known matches CloudIps::Other(service, election) ==> pair.0 == service && pair.1
            == election,
{
}

/// The number of the next request is the one that the log file holds: without
/// a file it is the first, and where the file holds no number the second.
pub proof fn law_next_number_comes_from_the_log(contents: Seq<char>, n: u32)
    ensures
        logged_req_id(None) == 0,
        number(contents) == Some(n) ==> logged_req_id(Some(contents)) == n,
        number(contents) is None ==> logged_req_id(Some(contents)) == 1,
{
}

/// A directory that was created is not spoken of; one that was there already,
/// or could not be created, is.
pub proof fn law_directories_are_reported(path: Seq<char>, error: String)
    ensures
        dir_report(path, DirOutcome::Created) is None,
        dir_report(path, DirOutcome::AlreadyExists) == Some(
            "Directory '"@ + path + "' already exists."@,
        ),
        dir_report(path, DirOutcome::Failed(error)) == Some(
            "Error creating directory '"@ + path + "': "@ + error@,
        ),
{
}

} // verus!

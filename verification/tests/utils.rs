use cloud_p2p_images::address::SocketAddr;
use cloud_p2p_images::utils::{
    cloud_texts, create_output_dirs, file_exists, get_cloud_servers, get_ips, get_peer_servers,
    get_pic_paths, get_req_id_log, ip_texts, mkdir, peer_texts, CloudIps, DirOutcome, FileKind, Ips,
    Ports,
};

const PORTS: Ports = Ports { service: 8080, election: 8081, sendback: 8082 };

fn v4(ip: &str, port: u16) -> SocketAddr {
    SocketAddr::V4 { ip: String::from(ip), port }
}

fn v6(ip: &str, port: u16, flowinfo: u32, scope_id: u32) -> SocketAddr {
    SocketAddr::V6 { ip: String::from(ip), port, flowinfo, scope_id }
}

#[test]
fn addresses_are_shown_with_their_ports() {
    assert_eq!(v4("127.0.0.1", 80).text(), "127.0.0.1:80");
    assert_eq!(v6("::1", 65535, 0, 0).text(), "[::1]:65535");
    assert_eq!(v6("fe80::1", 443, 5, 7).text(), "[fe80::1%7]:443");
}

#[test]
fn another_port_keeps_only_the_host() {
    assert!(v4("10.0.0.1", 1).with_port(2).same(&v4("10.0.0.1", 2)));
    assert!(v6("::1", 1, 3, 4).with_port(2).same(&v6("::1", 2, 0, 0)));
    assert!(!v4("10.0.0.1", 1).same(&v4("10.0.0.2", 1)));
    assert!(!v6("::1", 1, 0, 1).same(&v6("::1", 1, 0, 2)));
    assert!(!v4("::1", 1).same(&v6("::1", 1, 0, 0)));
    assert_eq!(v6("::1", 9, 0, 0).port(), 9);
}

#[test]
fn texts_of_ips_follow_the_mode() {
    assert_eq!(
        ip_texts("127.0.0.1:5001", "local", &PORTS),
        Some(Ips::Local(String::from("127.0.0.1:5001")))
    );
    assert_eq!(
        ip_texts("10.0.0.7", "dist", &PORTS),
        Some(Ips::Dist(
            String::from("10.0.0.7:8080"),
            String::from("10.0.0.7:8081"),
            String::from("10.0.0.7:8082")
        ))
    );
    assert_eq!(ip_texts("10.0.0.7", "distributed", &PORTS), None);
    assert_eq!(ip_texts("10.0.0.7", "", &PORTS), None);
}

#[test]
fn local_ports_stand_side_by_side() {
    let ips = get_ips(&Ips::Local(v4("127.0.0.1", 5001)));
    assert_eq!(ips, (v4("127.0.0.1", 5000), v4("127.0.0.1", 5001), v4("127.0.0.1", 5002)));
    let edge = get_ips(&Ips::Local(v4("127.0.0.1", 1)));
    assert_eq!(edge.0.port(), 0);
    let ips = get_ips(&Ips::Local(v6("fe80::1", 5001, 2, 3)));
    assert_eq!(
        ips,
        (v6("fe80::1", 5000, 0, 0), v6("fe80::1", 5001, 2, 3), v6("fe80::1", 5002, 0, 0))
    );
}

#[test]
fn distributed_addresses_are_taken_as_they_are() {
    let (a, b, c) = (v4("10.0.0.7", 8080), v4("10.0.0.7", 8081), v4("10.0.0.7", 8082));
    let ips = get_ips(&Ips::Dist(a.clone(), b.clone(), c.clone()));
    assert_eq!(ips, (a, b, c));
}

#[test]
fn peer_texts_follow_the_lines() {
    assert_eq!(
        peer_texts("127.0.0.1:1\n127.0.0.1:4\n", "local", &PORTS),
        Some(vec![
            Ips::Local(String::from("127.0.0.1:1")),
            Ips::Local(String::from("127.0.0.1:4"))
        ])
    );
    assert_eq!(peer_texts("127.0.0.1:1", "elsewhere", &PORTS), None);
    assert_eq!(peer_texts("", "elsewhere", &PORTS), Some(vec![]));
}

#[test]
fn peers_are_the_other_servers() {
    let own = get_ips(&Ips::Local(v4("127.0.0.1", 5001)));
    let known = vec![
        Ips::Local(v4("127.0.0.1", 4001)),
        Ips::Local(v4("127.0.0.1", 5001)),
        Ips::Local(v4("127.0.0.1", 6001)),
    ];
    let peers = get_peer_servers(&known, &own);
    assert_eq!(peers.len(), 2);
    assert_eq!(
        peers[0],
        (v4("127.0.0.1", 4000), v4("127.0.0.1", 4001), v4("127.0.0.1", 4002))
    );
    assert_eq!(peers[1].0, v4("127.0.0.1", 6000));
    assert!(get_peer_servers(&vec![], &own).is_empty());
}

#[test]
fn clients_know_two_addresses_of_each_server() {
    assert_eq!(
        cloud_texts("127.0.0.1:5001", "local", &PORTS),
        vec![CloudIps::Local(String::from("127.0.0.1:5001"))]
    );
    assert_eq!(
        cloud_texts("10.0.0.7\n10.0.0.8", "anything", &PORTS),
        vec![
            CloudIps::Other(String::from("10.0.0.7:8080"), String::from("10.0.0.7:8081")),
            CloudIps::Other(String::from("10.0.0.8:8080"), String::from("10.0.0.8:8081"))
        ]
    );
    let servers = get_cloud_servers(&vec![
        CloudIps::Local(v4("127.0.0.1", 5001)),
        CloudIps::Other(v4("10.0.0.7", 8080), v4("10.0.0.7", 8081)),
    ]);
    assert_eq!(
        servers,
        vec![
            (v4("127.0.0.1", 5000), v4("127.0.0.1", 5001)),
            (v4("10.0.0.7", 8080), v4("10.0.0.7", 8081))
        ]
    );
}

#[test]
fn the_log_gives_the_next_request() {
    assert_eq!(get_req_id_log(None), 0);
    assert_eq!(get_req_id_log(Some("17")), 17);
    assert_eq!(get_req_id_log(Some("17\n")), 1);
    assert_eq!(get_req_id_log(Some("")), 1);
    assert_eq!(get_req_id_log(Some("4294967296")), 1);
    assert_eq!(get_req_id_log(Some("+3")), 3);
}

#[test]
fn picture_paths_are_lines() {
    assert_eq!(get_pic_paths("a.png\r\nb/c.jpg\n"), vec!["a.png", "b/c.jpg"]);
}

#[test]
fn directories_are_reported() {
    assert_eq!(mkdir("pics", &DirOutcome::Created), None);
    assert_eq!(
        mkdir("pics", &DirOutcome::AlreadyExists),
        Some(String::from("Directory 'pics' already exists."))
    );
    assert_eq!(
        create_output_dirs("pics/enc", &DirOutcome::Failed(String::from("Os"))),
        Some(String::from("Error creating directory 'pics/enc': Os"))
    );
    assert_eq!(create_output_dirs("pics/enc", &DirOutcome::Created), None);
}

#[test]
fn files_and_directories_exist() {
    assert!(file_exists(Some(FileKind { is_file: true, is_dir: false })));
    assert!(file_exists(Some(FileKind { is_file: false, is_dir: true })));
    assert!(!file_exists(Some(FileKind { is_file: false, is_dir: false })));
    assert!(!file_exists(None));
}

use mxqueue::text::{parse_u16, u16_string};
use mxqueue::tunnel::{
    discovery_command, job_from_metadata, metadata_command, parse_discovery_output,
    parse_metadata, tunnel_args, PortAllocator, RunningJob, PORT_SCAN_HI, PORT_SCAN_LO,
};

#[test]
fn discovery_scenario() {
    let jobs = parse_discovery_output("myjob|gpu03");
    assert_eq!(jobs.len(), 1);
    assert_eq!(jobs[0].name, "myjob");
    assert_eq!(jobs[0].node, "gpu03");
    let job = job_from_metadata(&jobs[0], "gpu03:8080").unwrap();
    assert_eq!(job.name, "myjob");
    assert_eq!(job.node, "gpu03");
    assert_eq!(job.remote_port, 8080);
}

#[test]
fn discovery_skips_nodes_without_service() {
    let jobs = parse_discovery_output("other|cpu01");
    assert_eq!(jobs.len(), 0);
}

#[test]
fn discovery_reads_lines_and_tolerates_junk() {
    let out = "myjob|gpu03\nother|cpu01\nmalformed line\n";
    let jobs = parse_discovery_output(out);
    assert_eq!(jobs.len(), 1);
    assert_eq!(jobs[0].name, "myjob");
}

#[test]
fn discovery_command_text() {
    assert_eq!(
        discovery_command(),
        "sacct --format=JobName%22,Nodelist%8 --state=R -nPX"
    );
}

#[test]
fn metadata_command_text() {
    assert_eq!(metadata_command("myjob"), "cat ~/jobs/myjob.zarr/gui");
}

#[test]
fn metadata_parsing() {
    assert_eq!(parse_metadata("gpu03:8080"), Some(8080));
    assert_eq!(parse_metadata("gpu03:8080:extra"), Some(8080));
    assert_eq!(parse_metadata("gpu03:99999"), None);
    assert_eq!(parse_metadata("gpu03:80x"), None);
    assert_eq!(parse_metadata("nocolon"), None);
    assert_eq!(parse_metadata("gpu03:"), None);
    assert_eq!(parse_metadata(""), None);
}

#[test]
fn malformed_metadata_skips_job() {
    let d = RunningJob { name: "j".to_string(), node: "gpu9".to_string() };
    assert!(job_from_metadata(&d, "not started yet").is_none());
}

#[test]
fn ports_are_never_reused_while_held() {
    let mut a = PortAllocator::new();
    let p1 = a.lowest_unclaimed(0).unwrap();
    assert_eq!(p1, PORT_SCAN_LO);
    a.claim(p1);
    let p2 = a.lowest_unclaimed(0).unwrap();
    assert_ne!(p1, p2);
    a.claim(p2);
    let p3 = a.lowest_unclaimed(0).unwrap();
    assert_ne!(p3, p1);
    assert_ne!(p3, p2);
    assert!(a.check_claimed(p1));
    assert!(a.check_claimed(p2));
    assert!(!a.check_claimed(p3));
}

#[test]
fn released_port_can_be_offered_again() {
    let mut a = PortAllocator::new();
    let p1 = a.lowest_unclaimed(0).unwrap();
    a.claim(p1);
    assert_eq!(a.lowest_unclaimed(0), Some(p1 + 1));
    a.release(p1);
    assert_eq!(a.lowest_unclaimed(0), Some(p1));
}

#[test]
fn allocator_skips_claimed_ports_in_a_scan() {
    let mut a = PortAllocator::new();
    a.claim(PORT_SCAN_LO);
    a.claim(PORT_SCAN_LO + 2);
    assert_eq!(a.lowest_unclaimed(0), Some(PORT_SCAN_LO + 1));
    assert_eq!(
        a.lowest_unclaimed(PORT_SCAN_LO + 2),
        Some(PORT_SCAN_LO + 3)
    );
}

#[test]
fn scan_range_can_be_exhausted() {
    let mut a = PortAllocator::new();
    let last = PORT_SCAN_HI - 1;
    assert_eq!(a.lowest_unclaimed(last), Some(last));
    a.claim(last);
    assert_eq!(a.lowest_unclaimed(last), None);
    assert_eq!(a.lowest_unclaimed(PORT_SCAN_HI), None);
}

#[test]
fn forward_arguments() {
    let args = tunnel_args("pcss", "gpu03", 8080, 31000);
    assert_eq!(args, vec!["-N", "-T", "-L", "31000:gpu03:8080", "pcss"]);
}

#[test]
fn decimal_formatting() {
    assert_eq!(u16_string(0), "0");
    assert_eq!(u16_string(22), "22");
    assert_eq!(u16_string(8080), "8080");
    assert_eq!(u16_string(65535), "65535");
}

#[test]
fn decimal_parsing() {
    assert_eq!(parse_u16("0"), Some(0));
    assert_eq!(parse_u16("65535"), Some(65535));
    assert_eq!(parse_u16("65536"), None);
    assert_eq!(parse_u16(""), None);
    assert_eq!(parse_u16("01"), Some(1));
    assert_eq!(parse_u16("1a"), None);
    assert_eq!(parse_u16("-1"), None);
}

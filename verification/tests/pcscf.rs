use volte_ims::at::{
    parse_active_context_cids, parse_cgcontrdp_pcscf, parse_ims_context_cids, parse_pdp_contexts,
    restore_profile_command, select_ims_profile_context, ImsProfileContext, PdpContext,
};
use volte_ims::dns::{build_dns_query, parse_dns_response};
use volte_ims::errors::code;
use volte_ims::ip::{parse_ip, IpAddr};
use volte_ims::ip_settings::{parse_addr, parse_ip_settings, ImsIpSettings};
use volte_ims::pcscf::{
    parse_pcscf_override, pcscf_socket, pcscf_srv_names, push_profile_candidate,
};
use volte_ims::plan::{ImsConnectionPlan, VolteIpFamilyPreference};

fn ip(text: &str) -> IpAddr {
    parse_ip(text).unwrap()
}


const SAMPLE: &str = "\
IPv6 address: 2001:db8::2/64
IPv6 gateway address: 2001:db8::1
IPv6 primary DNS: 2001:db8::53
IPv6 secondary DNS: 2001:db8::54
IPv4 address: 10.0.0.2
IPv4 gateway address: 10.0.0.1
IPv4 primary DNS: 10.0.0.53";

#[test]
fn parses_ipv6_and_ipv4_blocks() {
    let s = parse_ip_settings(SAMPLE);
    assert_eq!(
        s.ipv6_address,
        Some(ip("2001:db8::2"))
    );
    assert_eq!(
        s.ipv6_gateway,
        Some(ip("2001:db8::1"))
    );
    assert_eq!(s.ipv6_dns.len(), 2);
    assert_eq!(s.ipv4_address, Some(ip("10.0.0.2")));
}

#[test]
fn address_order_honors_preference_and_strict_modes() {
    let s = parse_ip_settings(SAMPLE);
    assert_eq!(
        s.ordered_local_addrs(&ImsConnectionPlan::from_preference(
            VolteIpFamilyPreference::Ipv6First
        )),
        vec![
            ip("2001:db8::2"),
            ip("10.0.0.2"),
        ]
    );
    assert_eq!(
        s.ordered_local_addrs(&ImsConnectionPlan::from_preference(
            VolteIpFamilyPreference::Ipv4First
        )),
        vec![
            ip("10.0.0.2"),
            ip("2001:db8::2"),
        ]
    );
    assert_eq!(
        s.ordered_local_addrs(&ImsConnectionPlan::from_preference(
            VolteIpFamilyPreference::Ipv6Only
        )),
        vec![ip("2001:db8::2")]
    );
    assert_eq!(
        s.ordered_local_addrs(&ImsConnectionPlan::from_preference(
            VolteIpFamilyPreference::Ipv4Only
        )),
        vec![ip("10.0.0.2")]
    );
}

#[test]
fn local_addr_for_family_does_not_follow_preferred_family() {
    let settings = parse_ip_settings(SAMPLE);
    assert_eq!(
        settings.local_addr_for_family(ip("198.51.100.10")),
        Some(ip("10.0.0.2"))
    );
    assert_eq!(
        settings.local_addr_for_family(ip("2001:db8::10")),
        Some(ip("2001:db8::2"))
    );
    assert_eq!(settings.local_addr(), Some(ip("2001:db8::2")));
}

#[test]
fn gateway_for_family_matches_destination_and_omits_cross_family() {
    let settings = parse_ip_settings(SAMPLE);
    assert_eq!(
        settings.gateway_for_family(ip("198.51.100.10")),
        Some(ip("10.0.0.1"))
    );
    assert_eq!(
        settings.gateway_for_family(ip("2001:db8::10")),
        Some(ip("2001:db8::1"))
    );
}

#[test]
fn resolve_pcscf_accepts_only_explicit_pco_address() {
    let mut s = parse_ip_settings(SAMPLE);
    assert_eq!(
        s.resolve_pcscf_for(ip("2001:db8::2"))
            .unwrap_err()
            .code(),
        code::RUNTIME_ALL_PCSCF_FAILED
    );
    s.pcscf
        .push(ip("2001:db8::99"));
    assert_eq!(
        s.resolve_pcscf_for(ip("2001:db8::2"))
            .unwrap(),
        ip("2001:db8::99")
    );
}

#[test]
fn resolve_pcscf_errors_when_nothing() {
    let s = ImsIpSettings::default();
    assert_eq!(
        s.resolve_pcscf_for(ip("::1"))
            .unwrap_err()
            .code(),
        code::RUNTIME_ALL_PCSCF_FAILED
    );
}

#[test]
fn family_mismatch_detected() {
    let s = parse_ip_settings("IPv6 address: 2001:db8::2");
    let v4 = ip("10.0.0.1");
    assert_eq!(
        s.ensure_family_match(s.local_addr().unwrap(), v4)
            .unwrap_err()
            .code(),
        code::PCSCF_FAMILY_MISMATCH
    );
    let v6 = ip("2001:db8::1");
    assert_eq!(
        s.ensure_family_match(s.local_addr().unwrap(), v6).unwrap(),
        v6
    );
}

#[test]
fn explicit_pcscf_and_override_candidates_are_filtered_by_family() {
    let mut s = parse_ip_settings(SAMPLE);
    let v4 = ip("192.0.2.10");
    let v6 = ip("2001:db8::99");
    s.pcscf.extend([v6, v4]);

    assert_eq!(s.resolve_pcscf_for(s.ipv4_address.unwrap()).unwrap(), v4);
    assert_eq!(s.resolve_pcscf_for(s.ipv6_address.unwrap()).unwrap(), v6);
    assert_eq!(
        parse_pcscf_override("2001:db8::99, 192.0.2.10;invalid 192.0.2.10"),
        vec![v6, v4]
    );
}

#[test]
fn parses_qualcomm_cgcontrdp_pcscf_columns() {
    let response = "response: '+CGCONTRDP: 2,5,ims,36.14.87.128.10.128.45.91.1.2.3.4.5.6.7.8,36.14.87.128.10.128.45.91.8.7.6.5.4.3.2.1,36.14.0.90.0.0.0.0.0.0.0.0.0.102.102.36,36.14.0.91.0.0.0.0.0.0.0.0.0.102.102.254,36.14.0.46.130.1.192.0.0.9.0.0.0.0.0.1,36.14.0.46.130.1.192.0.0.9.0.0.0.0.0.2'";
    assert_eq!(
        parse_cgcontrdp_pcscf(response, 2, "ims"),
        vec![
            ip("240e:2e:8201:c000:9::1"),
            ip("240e:2e:8201:c000:9::2"),
        ]
    );
    assert!(parse_cgcontrdp_pcscf(response, 3, "ims").is_empty());

    let internet_context = response.replace(",ims,", ",internet,");
    assert!(parse_cgcontrdp_pcscf(&internet_context, 2, "ims").is_empty());
}

#[test]
fn at_probe_family_order_matches_runtime_preference() {
    assert_eq!(
        ImsConnectionPlan::from_preference(VolteIpFamilyPreference::Ipv6First).pdp_types(),
        vec!["IPV4V6", "IPV6", "IP"]
    );
    assert_eq!(
        ImsConnectionPlan::from_preference(VolteIpFamilyPreference::Ipv4First).pdp_types(),
        vec!["IPV4V6", "IP", "IPV6"]
    );
    assert_eq!(
        ImsConnectionPlan::from_preference(VolteIpFamilyPreference::Ipv6Only).pdp_types(),
        vec!["IPV6"]
    );
    assert_eq!(
        ImsConnectionPlan::from_preference(VolteIpFamilyPreference::Ipv4Only).pdp_types(),
        vec!["IP"]
    );
}

#[test]
fn selects_only_active_ims_contexts_for_read_only_discovery() {
    let contexts = "response: '+CGDCONT: 1,\"IPV4V6\",\"ctnet\",\"0.0.0.0\",0,0\n+CGDCONT: 3,\"IPV4V6\",\"ims\",\"0.0.0.0\",0,0\n+CGDCONT: 7,\"IPV6\",\"IMS\",\"0.0.0.0\",0,0'";
    let active = "response: '+CGACT: 1,1\n+CGACT: 3,0\n+CGACT: 7,1'";
    assert_eq!(parse_ims_context_cids(contexts, "ims"), vec![3, 7]);
    assert_eq!(parse_active_context_cids(active), vec![1, 7]);
    let active_cids = parse_active_context_cids(active);
    let selected = parse_ims_context_cids(contexts, "ims")
        .into_iter()
        .filter(|cid| active_cids.contains(cid))
        .collect::<Vec<_>>();
    assert_eq!(selected, vec![7]);
}

#[test]
fn parses_pdp_profiles_for_ims_profile_selection() {
    let contexts = "response: '+CGDCONT: 1,\"IPV4V6\",\"internet\",\"0.0.0.0\",0,0\n+CGDCONT: 2,\"IPV4V6\",\"ims\",\"0.0.0.0\",0,0\n+CGDCONT: 7,\"IPV6\",\"IMS\",\"0.0.0.0\",0,0'";
    assert_eq!(
        parse_pdp_contexts(contexts),
        vec![
            PdpContext {
                cid: 1,
                pdp_type: "IPV4V6".to_string(),
                apn: "internet".to_string(),
            },
            PdpContext {
                cid: 2,
                pdp_type: "IPV4V6".to_string(),
                apn: "ims".to_string(),
            },
            PdpContext {
                cid: 7,
                pdp_type: "IPV6".to_string(),
                apn: "IMS".to_string(),
            },
        ]
    );
    assert_eq!(parse_ims_context_cids(contexts, "ims"), vec![2, 7]);
}

#[test]
fn ims_profile_rewrites_fixed_cid_instead_of_allocating_unsupported_cid() {
    let contexts = parse_pdp_contexts(
        "response: '+CGDCONT: 1,\"IPV4V6\",\"\",\"0.0.0.0\",0,0\n+CGDCONT: 2,\"IPV4V6\",\"\",\"0.0.0.0\",0,0'",
    );
    assert_eq!(
        select_ims_profile_context(&contexts, 2, "ims"),
        ImsProfileContext {
            cid: 2,
            created: true,
        }
    );
}

#[test]
fn beta2_profile_cleanup_restores_the_previous_definition() {
    let contexts = parse_pdp_contexts(
        "response: '+CGDCONT: 1,\"IPV4V6\",\"internet\"\n+CGDCONT: 2,\"IPV6\",\"private-ims\"'",
    );
    assert_eq!(
        restore_profile_command(&contexts, 2),
        "AT+CGDCONT=2,\"IPV6\",\"private-ims\""
    );
    assert_eq!(
        restore_profile_command(&contexts, 3),
        "AT+CGDCONT=3,\"IPV4V6\",\"\""
    );
}

#[test]
fn beta2_profile_candidates_are_unique_and_bounded() {
    let mut candidates = Vec::new();
    for cid in [2, 2, 1, 0, 17, 3] {
        push_profile_candidate(&mut candidates, cid);
    }
    assert_eq!(candidates, vec![2, 1, 3]);
}

#[test]
fn pcscf_dns_srv_names_try_3gpp_pcscf_domain_first() {
    assert_eq!(
        pcscf_srv_names("ims.mnc001.mcc001.3gppnetwork.org"),
        vec![
            "_sip._udp.pcscf.ims.mnc001.mcc001.3gppnetwork.org",
            "_sip._tcp.pcscf.ims.mnc001.mcc001.3gppnetwork.org",
            "_sip._udp.ims.mnc001.mcc001.3gppnetwork.org",
            "_sip._tcp.ims.mnc001.mcc001.3gppnetwork.org",
        ]
    );
}

#[test]
fn parse_addr_strips_prefix_len() {
    assert_eq!(
        parse_addr("2001:db8::2/64"),
        Some(ip("2001:db8::2"))
    );
    assert_eq!(
        parse_addr("10.0.0.2 255.255.255.0"),
        Some(ip("10.0.0.2"))
    );
}

#[test]
fn parses_compressed_aaaa_dns_answer() {
    let id = 0x1234;
    let name = "pcscf.ims.example";
    let query = build_dns_query(id, name, 28).unwrap();
    let mut packet = query.clone();
    packet[2..4].copy_from_slice(&0x8180u16.to_be_bytes());
    packet[6..8].copy_from_slice(&1u16.to_be_bytes());
    packet.extend_from_slice(&[0xc0, 0x0c]);
    packet.extend_from_slice(&28u16.to_be_bytes());
    packet.extend_from_slice(&1u16.to_be_bytes());
    packet.extend_from_slice(&60u32.to_be_bytes());
    packet.extend_from_slice(&16u16.to_be_bytes());
    packet.extend_from_slice(&1u128.to_be_bytes());

    let records = parse_dns_response(id, &packet).unwrap();
    assert_eq!(records.addresses, vec![ip("::1")]);
}

#[test]
fn pcscf_socket_uses_standard_sip_port() {
    assert_eq!(pcscf_socket(ip("127.0.0.1")).port, 5060);
}

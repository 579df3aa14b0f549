use mkvm::schema::{empty_string, parse, vec_string, LookupError};
use mkvm::yaml::DecodeError;

const DOC: &str = "
api: v1
controller:
  hostname: ctl
  domain: example.com
  email: admin@example.com
  pubkey: ssh-ed25519 AAAA
hypervisor:
  hypervisor: kvm
  hostname: host1
  network_bridge: br0
  network_mode: bridge
  network_name: default
  pool_name: images
  storage_format: qcow2
  url: qemu:///system
secrets:
  root: hash
vms:
  - hostname: master1
    image: opensuse
    cpu: host
    vcpu: 2
    memory: 4096
    disks:
      - device: vda
        label: root
        fstype: ext4
        mountpoint: /
        size: 20
    networks:
      - name: eth0
        zone: public
        qtype: dhcp
    users:
      - username: admin
  - hostname: master2
    image: debian
    cpu: host
    vcpu: 4
    memory: 8192
    disks:
      - device: vdb
        label: data
        fsopts: [noatime]
        fstype: xfs
        mountpoint: /data
        opts: [a, b]
        size: 100
    networks:
      - name: eth1
        zone: internal
        subdomain: lab
        qtype: static
        dns: [10.0.0.1]
    users:
      - username: ops
        role: admin
        authorized_keys: [key1, key2]
";

#[test]
fn document_decodes() {
    let doc = parse(&DOC.to_string()).unwrap();
    assert_eq!(doc.api, "v1");
    assert_eq!(doc.controller.hostname, "ctl");
    assert_eq!(doc.hypervisor.url, "qemu:///system");
    assert_eq!(doc.secrets, vec![("root".to_string(), "hash".to_string())]);
    assert_eq!(doc.vms.len(), 2);
    assert_eq!(doc.vms[1].vcpu, 4);
    assert_eq!(doc.vms[1].memory, 8192);
    assert_eq!(doc.vms[1].disks[0].fsopts, vec!["noatime".to_string()]);
    assert_eq!(doc.vms[1].networks[0].dns, vec!["10.0.0.1".to_string()]);
    assert_eq!(doc.vms[1].users[0].authorized_keys, vec!["key1".to_string(), "key2".to_string()]);
}

#[test]
fn unknown_top_level_key_is_refused() {
    let text = format!("{}unexpected_field: true\n", DOC);
    assert_eq!(
        parse(&text).unwrap_err(),
        DecodeError::UnknownField("unexpected_field".to_string())
    );
    assert!(parse(&DOC.to_string()).is_ok());
}

#[test]
fn unknown_nested_key_is_refused() {
    let text = DOC.replace("        label: root\n", "        label: root\n        colour: red\n");
    assert_eq!(parse(&text).unwrap_err(), DecodeError::UnknownField("colour".to_string()));
}

#[test]
fn omitted_fields_take_defaults() {
    let doc = parse(&DOC.to_string()).unwrap();
    let disk = &doc.vms[0].disks[0];
    assert!(disk.fsopts.is_empty());
    assert!(disk.opts.is_empty());
    assert_eq!(disk.size, 20);
    let net = &doc.vms[0].networks[0];
    assert_eq!(net.subdomain, "");
    assert!(net.dns.is_empty());
    let user = &doc.vms[0].users[0];
    assert_eq!(user.role, "");
    assert!(user.authorized_keys.is_empty());
}

#[test]
fn missing_mandatory_field_is_refused() {
    let text = DOC.replace("  url: qemu:///system\n", "");
    assert_eq!(parse(&text).unwrap_err(), DecodeError::MissingField("url".to_string()));
}

#[test]
fn wrong_type_is_refused() {
    let text = DOC.replace("vcpu: 2", "vcpu: two");
    assert_eq!(parse(&text).unwrap_err(), DecodeError::WrongType("vcpu".to_string()));
    let text = DOC.replace("vcpu: 2", "vcpu: 70000");
    assert_eq!(parse(&text).unwrap_err(), DecodeError::WrongType("vcpu".to_string()));
}

#[test]
fn non_mapping_document_is_refused() {
    assert_eq!(parse(&"- a\n- b\n".to_string()).unwrap_err(), DecodeError::NotAMapping);
}

#[test]
fn non_scalar_key_is_refused() {
    assert_eq!(parse(&"~: a\n".to_string()).unwrap_err(), DecodeError::KeyNotText);
    assert_eq!(parse(&"1: a\n".to_string()).unwrap_err(), DecodeError::UnknownField("1".to_string()));
}

#[test]
fn scalars_decode_as_text() {
    let text = DOC
        .replace("api: v1", "api: 1")
        .replace("zone: public", "zone: 10")
        .replace("  root: hash", "  root: hash\n  pin: 1234\n  on: true\n  7: seven");
    let doc = parse(&text).unwrap();
    assert_eq!(doc.api, "1");
    assert_eq!(doc.vms[0].networks[0].zone, "10");
    assert_eq!(
        doc.secrets,
        vec![
            ("root".to_string(), "hash".to_string()),
            ("pin".to_string(), "1234".to_string()),
            ("on".to_string(), "true".to_string()),
            ("7".to_string(), "seven".to_string()),
        ]
    );
}

#[test]
fn repeated_secret_name_is_refused() {
    let text = DOC.replace("  root: hash", "  1: a\n  \"1\": b");
    assert_eq!(parse(&text).unwrap_err(), DecodeError::DuplicateKey("1".to_string()));
}

#[test]
fn invalid_yaml_is_a_syntax_error() {
    assert!(matches!(parse(&"a: [1".to_string()), Err(DecodeError::Syntax(_))));
}

#[test]
fn lookup_finds_vm_by_hostname() {
    let doc = parse(&DOC.to_string()).unwrap();
    let vm = doc.vm("master2").unwrap();
    assert_eq!(vm.hostname, "master2");
    assert_eq!(vm.image, "debian");
    assert_eq!(doc.vm("master1").unwrap().image, "opensuse");
}

#[test]
fn lookup_of_missing_hostname_fails() {
    let doc = parse(&DOC.to_string()).unwrap();
    assert_eq!(doc.vm("missing").unwrap_err(), LookupError::NotFound("missing".to_string()));
}

#[test]
fn lookup_takes_first_of_duplicates() {
    let text = DOC.replace("hostname: master2", "hostname: master1");
    let doc = parse(&text).unwrap();
    assert_eq!(doc.vm("master1").unwrap().image, "opensuse");
}

#[test]
fn defaults_are_empty() {
    assert!(vec_string().is_empty());
    assert_eq!(empty_string(), "");
}

use vstd::prelude::*;
use crate::sources::views;
use crate::yaml::{bool_text, parse_tree, yaml_valid, DecodeError, Yaml};

verus! {

/// Position of the first entry whose key is `key`.
pub open spec fn first_key(es: Seq<(String, Yaml)>, key: Seq<char>) -> Option<int>
    decreases es.len(),
{
    if es.len() == 0 {
        None
    } else {
        match first_key(es.drop_last(), key) {
            Some(i) => Some(i),
            None => if es.last().0@ == key {
                Some(es.len() - 1)
            } else {
                None
            },
        }
    }
}

proof fn lemma_first_key_prefix(es: Seq<(String, Yaml)>, n: int, key: Seq<char>)
    requires
        0 <= n <= es.len(),
        first_key(es.take(n), key) is Some,
    ensures
        first_key(es, key) == first_key(es.take(n), key),
    decreases es.len() - n,
{
    if n == es.len() {
        assert(es.take(n) =~= es);
    } else {
        assert(es.take(n + 1).drop_last() =~= es.take(n));
        lemma_first_key_prefix(es, n + 1, key);
    }
}

/// The value under `key`, where there is one.
pub open spec fn value_at(es: Seq<(String, Yaml)>, key: Seq<char>) -> Option<Yaml> {
    match first_key(es, key) {
        Some(i) => Some(es[i].1),
        None => None,
    }
}

/// Every key of the mapping is one of `allowed`.
pub open spec fn closed(es: Seq<(String, Yaml)>, allowed: Seq<Seq<char>>) -> bool {
    forall|i: int| 0 <= i < es.len() ==> allowed.contains(#[trigger] es[i].0@)
}

/// The text of a scalar: a string, a boolean or a number, as written.
pub open spec fn scalar_text(y: Yaml) -> Option<Seq<char>> {
    match y {
        Yaml::Text(s) => Some(s@),
        Yaml::Bool(b) => Some(if b { "true"@ } else { "false"@ }),
        Yaml::Unsigned(_, s) => Some(s@),
        Yaml::Signed(_, s) => Some(s@),
        Yaml::Real(s) => Some(s@),
        _ => None,
    }
}

/// The text of the scalar under a mandatory `key`.
pub open spec fn text_at(es: Seq<(String, Yaml)>, key: Seq<char>) -> Option<Seq<char>> {
    match value_at(es, key) {
        Some(y) => scalar_text(y),
        None => None,
    }
}

/// The text of the scalar under `key`, empty where the key is absent.
pub open spec fn text_or_empty_at(es: Seq<(String, Yaml)>, key: Seq<char>) -> Option<Seq<char>> {
    match value_at(es, key) {
        None => Some(Seq::empty()),
        Some(y) => scalar_text(y),
    }
}

/// The text of a scalar.
pub fn text_of(y: &Yaml) -> (r: Option<String>)
    ensures
        match r {
            Some(s) => scalar_text(*y) == Some(s@),
            None => scalar_text(*y) is None,
        },
{
    match y {
        Yaml::Text(s) => Some(s.clone()),
        Yaml::Bool(b) => Some(bool_text(*b)),
        Yaml::Unsigned(_, s) => Some(s.clone()),
        Yaml::Signed(_, s) => Some(s.clone()),
        Yaml::Real(s) => Some(s.clone()),
        _ => None,
    }
}

/// The integer under a mandatory `key`.
pub open spec fn u64_at(es: Seq<(String, Yaml)>, key: Seq<char>) -> Option<u64> {
    match value_at(es, key) {
        Some(Yaml::Unsigned(n, _)) => Some(n),
        _ => None,
    }
}

/// The integer under a mandatory `key`, where it fits in 16 bits.
pub open spec fn u16_at(es: Seq<(String, Yaml)>, key: Seq<char>) -> Option<u16> {
    match value_at(es, key) {
        Some(Yaml::Unsigned(n, _)) => if n <= u16::MAX {
            Some(n as u16)
        } else {
            None
        },
        _ => None,
    }
}

/// The items of the sequence under a mandatory `key`.
pub open spec fn list_at(es: Seq<(String, Yaml)>, key: Seq<char>) -> Option<Seq<Yaml>> {
    match value_at(es, key) {
        Some(Yaml::List(items)) => Some(items@),
        _ => None,
    }
}

pub open spec fn all_text(items: Seq<Yaml>) -> bool {
    forall|j: int| 0 <= j < items.len() ==> #[trigger] scalar_text(items[j]) is Some
}

pub open spec fn texts_of(items: Seq<Yaml>) -> Seq<Seq<char>> {
    items.map_values(|x: Yaml| scalar_text(x)->Some_0)
}

/// The texts of the sequence under `key`, empty where the key is absent.
pub open spec fn texts_or_empty_at(es: Seq<(String, Yaml)>, key: Seq<char>) -> Option<
    Seq<Seq<char>>,
> {
    match value_at(es, key) {
        None => Some(Seq::empty()),
        Some(Yaml::List(items)) => if all_text(items@) {
            Some(texts_of(items@))
        } else {
            None
        },
        _ => None,
    }
}

/// The default of an absent list-of-text field: no items.
pub fn vec_string() -> (r: Vec<String>)
    ensures
        r@.len() == 0,
{
    Vec::new()
}

/// The default of an absent text field: the empty text.
pub fn empty_string() -> (r: String)
    ensures
        r@ == Seq::<char>::empty(),
{
    String::new()
}

/// Finds the first entry under `key`.
fn find(es: &Vec<(String, Yaml)>, key: &String) -> (r: Option<usize>)
    ensures
        match r {
            Some(i) => first_key(es@, key@) == Some(i as int) && i < es@.len(),
            None => first_key(es@, key@) is None,
        },
{
    let mut i: usize = 0;
    while i < es.len()
        invariant
            0 <= i <= es.len(),
            first_key(es@.take(i as int), key@) is None,
        decreases es.len() - i,
    {
        assert(es@.take(i as int + 1).drop_last() =~= es@.take(i as int));
        if es[i].0 == *key {
            assert(first_key(es@.take(i as int + 1), key@) == Some(i as int));
            proof {
                lemma_first_key_prefix(es@, i as int + 1, key@);
            }
            return Some(i);
        }
        i = i + 1;
    }
    assert(es@.take(i as int) =~= es@);
    None
}

/// Refuses a mapping with a key outside `allowed`, naming the first such key.
fn check_closed(es: &Vec<(String, Yaml)>, allowed: &Vec<String>) -> (r: Result<(), DecodeError>)
    ensures
        !(r matches Err(DecodeError::Syntax(_))),
        r is Ok <==> closed(es@, views(allowed@)),
        r matches Err(e) ==> e matches DecodeError::UnknownField(k) && exists|i: int|
            0 <= i < es@.len() && es@[i].0@ == k@ && !views(allowed@).contains(k@),
{
    let mut i: usize = 0;
    while i < es.len()
        invariant
            0 <= i <= es.len(),
            forall|k: int| 0 <= k < i ==> views(allowed@).contains(#[trigger] es@[k].0@),
        decreases es.len() - i,
    {
        let mut j: usize = 0;
        let mut found = false;
        while j < allowed.len()
            invariant
                0 <= j <= allowed.len(),
                i < es.len(),
                found ==> views(allowed@).contains(es@[i as int].0@),
                !found ==> forall|m: int| 0 <= m < j ==> allowed@[m]@ != es@[i as int].0@,
            decreases allowed.len() - j,
        {
            if allowed[j] == es[i].0 {
                assert(views(allowed@)[j as int] == es@[i as int].0@);
                found = true;
            }
            j = j + 1;
        }
        if !found {
            assert(!views(allowed@).contains(es@[i as int].0@));
            return Err(DecodeError::UnknownField(es[i].0.clone()));
        }
        i = i + 1;
    }
    Ok(())
}

fn get_text(es: &Vec<(String, Yaml)>, key: &String) -> (r: Result<String, DecodeError>)
    ensures
        value_at(es@, key@) is None ==> (r matches Err(DecodeError::MissingField(k)) && k@ == key@),
        !(r matches Err(DecodeError::Syntax(_))),
        match r {
            Ok(s) => text_at(es@, key@) == Some(s@),
            Err(_) => text_at(es@, key@) is None,
        },
{
    match find(es, key) {
        None => Err(DecodeError::MissingField(key.clone())),
        Some(i) => match text_of(&es[i].1) {
            Some(s) => Ok(s),
            None => Err(DecodeError::WrongType(key.clone())),
        },
    }
}

fn get_text_or_empty(es: &Vec<(String, Yaml)>, key: &String) -> (r: Result<String, DecodeError>)
    ensures
        !(r matches Err(DecodeError::Syntax(_))),
        match r {
            Ok(s) => text_or_empty_at(es@, key@) == Some(s@),
            Err(_) => text_or_empty_at(es@, key@) is None,
        },
{
    match find(es, key) {
        None => Ok(empty_string()),
        Some(i) => match text_of(&es[i].1) {
            Some(s) => Ok(s),
            None => Err(DecodeError::WrongType(key.clone())),
        },
    }
}

fn get_u64(es: &Vec<(String, Yaml)>, key: &String) -> (r: Result<u64, DecodeError>)
    ensures
        value_at(es@, key@) is None ==> (r matches Err(DecodeError::MissingField(k)) && k@ == key@),
        !(r matches Err(DecodeError::Syntax(_))),
        match r {
            Ok(n) => u64_at(es@, key@) == Some(n),
            Err(_) => u64_at(es@, key@) is None,
        },
{
    match find(es, key) {
        None => Err(DecodeError::MissingField(key.clone())),
        Some(i) => match &es[i].1 {
            Yaml::Unsigned(n, _) => Ok(*n),
            _ => Err(DecodeError::WrongType(key.clone())),
        },
    }
}

fn get_u16(es: &Vec<(String, Yaml)>, key: &String) -> (r: Result<u16, DecodeError>)
    ensures
        value_at(es@, key@) is None ==> (r matches Err(DecodeError::MissingField(k)) && k@ == key@),
        !(r matches Err(DecodeError::Syntax(_))),
        match r {
            Ok(n) => u16_at(es@, key@) == Some(n),
            Err(_) => u16_at(es@, key@) is None,
        },
{
    match find(es, key) {
        None => Err(DecodeError::MissingField(key.clone())),
        Some(i) => match &es[i].1 {
            Yaml::Unsigned(n, _) => if *n <= 65535 {
                Ok(*n as u16)
            } else {
                Err(DecodeError::WrongType(key.clone()))
            },
            _ => Err(DecodeError::WrongType(key.clone())),
        },
    }
}

fn get_list<'a>(es: &'a Vec<(String, Yaml)>, key: &String) -> (r: Result<&'a Vec<Yaml>, DecodeError>)
    ensures
        value_at(es@, key@) is None ==> (r matches Err(DecodeError::MissingField(k)) && k@ == key@),
        !(r matches Err(DecodeError::Syntax(_))),
        match r {
            Ok(items) => list_at(es@, key@) == Some(items@),
            Err(_) => list_at(es@, key@) is None,
        },
{
    match find(es, key) {
        None => Err(DecodeError::MissingField(key.clone())),
        Some(i) => match &es[i].1 {
            Yaml::List(items) => Ok(items),
            _ => Err(DecodeError::WrongType(key.clone())),
        },
    }
}

fn get_texts_or_empty(es: &Vec<(String, Yaml)>, key: &String) -> (r: Result<Vec<String>, DecodeError>)
    ensures
        !(r matches Err(DecodeError::Syntax(_))),
        match r {
            Ok(v) => texts_or_empty_at(es@, key@) == Some(views(v@)),
            Err(_) => texts_or_empty_at(es@, key@) is None,
        },
{
    match find(es, key) {
        None => {
            let v: Vec<String> = vec_string();
            assert(views(v@) =~= Seq::<Seq<char>>::empty());
            Ok(v)
        },
        Some(i) => match &es[i].1 {
            Yaml::List(items) => {
                assert(value_at(es@, key@) == Some(Yaml::List(*items)));
                let mut out: Vec<String> = Vec::new();
                let mut j: usize = 0;
                while j < items.len()
                    invariant
                        0 <= j <= items.len(),
                        value_at(es@, key@) == Some(Yaml::List(*items)),
                        all_text(items@.take(j as int)),
                        views(out@) =~= texts_of(items@.take(j as int)),
                    decreases items.len() - j,
                {
                    let ghost before = out@;
                    match text_of(&items[j]) {
                        Some(s) => {
                            out.push(s);
                            assert(views(out@) =~= views(before).push(s@));
                        },
                        None => {
                            assert(scalar_text(items@[j as int]) is None);
                            assert(!all_text(items@));
                            return Err(DecodeError::WrongType(key.clone()));
                        },
                    }
                    assert(items@.take(j as int + 1) =~= items@.take(j as int).push(items@[j as int]));
                    assert(texts_of(items@.take(j as int + 1)) =~= texts_of(items@.take(j as int)).push(
                        scalar_text(items@[j as int])->Some_0,
                    ));
                    j = j + 1;
                }
                assert(items@.take(j as int) =~= items@);
                Ok(out)
            },
            _ => Err(DecodeError::WrongType(key.clone())),
        },
    }
}

/// The error is an unknown-field error naming a key of the mapping that
/// `allowed` does not hold.
pub open spec fn unknown_key_error<T>(
    es: Seq<(String, Yaml)>,
    allowed: Seq<Seq<char>>,
    r: Result<T, DecodeError>,
) -> bool {
    r matches Err(DecodeError::UnknownField(k)) && !allowed.contains(k@) && exists|i: int|
        0 <= i < es.len() && es[i].0@ == k@
}

/// The cluster controller.
#[derive(Debug, Clone)]
pub struct Controller {
    pub hostname: String,
    pub domain: String,
    pub email: String,
    pub pubkey: String,
}

/// The keys that a controller record declares.
pub open spec fn controller_keys() -> Seq<Seq<char>> {
    seq!["hostname"@, "domain"@, "email"@, "pubkey"@]
}

/// `d` is what the tree `y` decodes to as a controller record.
pub open spec fn controller_from(y: Yaml, d: Controller) -> bool {
    &&& y is Table
    &&& closed(y->Table_0@, controller_keys())
    &&& text_at(y->Table_0@, "hostname"@) == Some(d.hostname@)
    &&& text_at(y->Table_0@, "domain"@) == Some(d.domain@)
    &&& text_at(y->Table_0@, "email"@) == Some(d.email@)
    &&& text_at(y->Table_0@, "pubkey"@) == Some(d.pubkey@)
}

fn controller_key_list() -> (r: Vec<String>)
    ensures
        views(r@) == controller_keys(),
{
    let mut v: Vec<String> = Vec::new();
    v.push("hostname".to_owned());
    v.push("domain".to_owned());
    v.push("email".to_owned());
    v.push("pubkey".to_owned());
    assert(views(v@) =~= controller_keys());
    v
}

/// Decodes a controller record, refusing any key that it does not declare.
pub fn decode_controller(y: &Yaml) -> (r: Result<Controller, DecodeError>)
    ensures
        !(r matches Err(DecodeError::Syntax(_))),
        r is Ok <==> exists|d: Controller| controller_from(*y, d),
        r matches Ok(d) ==> controller_from(*y, d),
        y is Table && !closed(y->Table_0@, controller_keys()) ==> unknown_key_error(y->Table_0@, controller_keys(), r),
{
    match y {
        Yaml::Table(es) => {
            if let Err(e) = check_closed(es, &controller_key_list()) {
                return Err(e);
            }
            let hostname = match get_text(es, &"hostname".to_owned()) { Ok(v) => v, Err(e) => return Err(e) };
            let domain = match get_text(es, &"domain".to_owned()) { Ok(v) => v, Err(e) => return Err(e) };
            let email = match get_text(es, &"email".to_owned()) { Ok(v) => v, Err(e) => return Err(e) };
            let pubkey = match get_text(es, &"pubkey".to_owned()) { Ok(v) => v, Err(e) => return Err(e) };
            let d = Controller { hostname, domain, email, pubkey };
            assert(controller_from(*y, d));
            Ok(d)
        },
        _ => Err(DecodeError::NotAMapping),
    }
}

/// The hypervisor that runs the virtual machines.
#[derive(Debug, Clone)]
pub struct Hypervisor {
    pub hypervisor: String,
    pub hostname: String,
    pub network_bridge: String,
    pub network_mode: String,
    pub network_name: String,
    pub pool_name: String,
    pub storage_format: String,
    pub url: String,
}

/// The keys that a hypervisor record declares.
pub open spec fn hypervisor_keys() -> Seq<Seq<char>> {
    seq!["hypervisor"@, "hostname"@, "network_bridge"@, "network_mode"@, "network_name"@, "pool_name"@, "storage_format"@, "url"@]
}

/// `d` is what the tree `y` decodes to as a hypervisor record.
pub open spec fn hypervisor_from(y: Yaml, d: Hypervisor) -> bool {
    &&& y is Table
    &&& closed(y->Table_0@, hypervisor_keys())
    &&& text_at(y->Table_0@, "hypervisor"@) == Some(d.hypervisor@)
    &&& text_at(y->Table_0@, "hostname"@) == Some(d.hostname@)
    &&& text_at(y->Table_0@, "network_bridge"@) == Some(d.network_bridge@)
    &&& text_at(y->Table_0@, "network_mode"@) == Some(d.network_mode@)
    &&& text_at(y->Table_0@, "network_name"@) == Some(d.network_name@)
    &&& text_at(y->Table_0@, "pool_name"@) == Some(d.pool_name@)
    &&& text_at(y->Table_0@, "storage_format"@) == Some(d.storage_format@)
    &&& text_at(y->Table_0@, "url"@) == Some(d.url@)
}

fn hypervisor_key_list() -> (r: Vec<String>)
    ensures
        views(r@) == hypervisor_keys(),
{
    let mut v: Vec<String> = Vec::new();
    v.push("hypervisor".to_owned());
    v.push("hostname".to_owned());
    v.push("network_bridge".to_owned());
    v.push("network_mode".to_owned());
    v.push("network_name".to_owned());
    v.push("pool_name".to_owned());
    v.push("storage_format".to_owned());
    v.push("url".to_owned());
    assert(views(v@) =~= hypervisor_keys());
    v
}

/// Decodes a hypervisor record, refusing any key that it does not declare.
pub fn decode_hypervisor(y: &Yaml) -> (r: Result<Hypervisor, DecodeError>)
    ensures
        !(r matches Err(DecodeError::Syntax(_))),
        r is Ok <==> exists|d: Hypervisor| hypervisor_from(*y, d),
        r matches Ok(d) ==> hypervisor_from(*y, d),
        y is Table && !closed(y->Table_0@, hypervisor_keys()) ==> unknown_key_error(y->Table_0@, hypervisor_keys(), r),
{
    match y {
        Yaml::Table(es) => {
            if let Err(e) = check_closed(es, &hypervisor_key_list()) {
                return Err(e);
            }
            let hypervisor = match get_text(es, &"hypervisor".to_owned()) { Ok(v) => v, Err(e) => return Err(e) };
            let hostname = match get_text(es, &"hostname".to_owned()) { Ok(v) => v, Err(e) => return Err(e) };
            let network_bridge = match get_text(es, &"network_bridge".to_owned()) { Ok(v) => v, Err(e) => return Err(e) };
            let network_mode = match get_text(es, &"network_mode".to_owned()) { Ok(v) => v, Err(e) => return Err(e) };
            let network_name = match get_text(es, &"network_name".to_owned()) { Ok(v) => v, Err(e) => return Err(e) };
            let pool_name = match get_text(es, &"pool_name".to_owned()) { Ok(v) => v, Err(e) => return Err(e) };
            let storage_format = match get_text(es, &"storage_format".to_owned()) { Ok(v) => v, Err(e) => return Err(e) };
            let url = match get_text(es, &"url".to_owned()) { Ok(v) => v, Err(e) => return Err(e) };
            let d = Hypervisor { hypervisor, hostname, network_bridge, network_mode, network_name, pool_name, storage_format, url };
            assert(hypervisor_from(*y, d));
            Ok(d)
        },
        _ => Err(DecodeError::NotAMapping),
    }
}

/// A disk of a virtual machine. `fsopts` and `opts` are empty where absent.
#[derive(Debug, Clone)]
pub struct Disk {
    pub device: String,
    pub label: String,
    pub fsopts: Vec<String>,
    pub fstype: String,
    pub mountpoint: String,
    pub opts: Vec<String>,
    pub size: u64,
}

/// The keys that a disk record declares.
pub open spec fn disk_keys() -> Seq<Seq<char>> {
    seq!["device"@, "label"@, "fsopts"@, "fstype"@, "mountpoint"@, "opts"@, "size"@]
}

/// `d` is what the tree `y` decodes to as a disk record.
pub open spec fn disk_from(y: Yaml, d: Disk) -> bool {
    &&& y is Table
    &&& closed(y->Table_0@, disk_keys())
    &&& text_at(y->Table_0@, "device"@) == Some(d.device@)
    &&& text_at(y->Table_0@, "label"@) == Some(d.label@)
    &&& texts_or_empty_at(y->Table_0@, "fsopts"@) == Some(views(d.fsopts@))
    &&& text_at(y->Table_0@, "fstype"@) == Some(d.fstype@)
    &&& text_at(y->Table_0@, "mountpoint"@) == Some(d.mountpoint@)
    &&& texts_or_empty_at(y->Table_0@, "opts"@) == Some(views(d.opts@))
    &&& u64_at(y->Table_0@, "size"@) == Some(d.size)
}

fn disk_key_list() -> (r: Vec<String>)
    ensures
        views(r@) == disk_keys(),
{
    let mut v: Vec<String> = Vec::new();
    v.push("device".to_owned());
    v.push("label".to_owned());
    v.push("fsopts".to_owned());
    v.push("fstype".to_owned());
    v.push("mountpoint".to_owned());
    v.push("opts".to_owned());
    v.push("size".to_owned());
    assert(views(v@) =~= disk_keys());
    v
}

/// Decodes a disk record, refusing any key that it does not declare.
pub fn decode_disk(y: &Yaml) -> (r: Result<Disk, DecodeError>)
    ensures
        !(r matches Err(DecodeError::Syntax(_))),
        r is Ok <==> exists|d: Disk| disk_from(*y, d),
        r matches Ok(d) ==> disk_from(*y, d),
        y is Table && !closed(y->Table_0@, disk_keys()) ==> unknown_key_error(y->Table_0@, disk_keys(), r),
{
    match y {
        Yaml::Table(es) => {
            if let Err(e) = check_closed(es, &disk_key_list()) {
                return Err(e);
            }
            let device = match get_text(es, &"device".to_owned()) { Ok(v) => v, Err(e) => return Err(e) };
            let label = match get_text(es, &"label".to_owned()) { Ok(v) => v, Err(e) => return Err(e) };
            let fsopts = match get_texts_or_empty(es, &"fsopts".to_owned()) { Ok(v) => v, Err(e) => return Err(e) };
            let fstype = match get_text(es, &"fstype".to_owned()) { Ok(v) => v, Err(e) => return Err(e) };
            let mountpoint = match get_text(es, &"mountpoint".to_owned()) { Ok(v) => v, Err(e) => return Err(e) };
            let opts = match get_texts_or_empty(es, &"opts".to_owned()) { Ok(v) => v, Err(e) => return Err(e) };
            let size = match get_u64(es, &"size".to_owned()) { Ok(v) => v, Err(e) => return Err(e) };
            let d = Disk { device, label, fsopts, fstype, mountpoint, opts, size };
            assert(disk_from(*y, d));
            Ok(d)
        },
        _ => Err(DecodeError::NotAMapping),
    }
}

/// A network of a virtual machine. `subdomain` and `dns` are empty where absent.
#[derive(Debug, Clone)]
pub struct Network {
    pub name: String,
    pub zone: String,
    pub subdomain: String,
    pub qtype: String,
    pub dns: Vec<String>,
}

/// The keys that a network record declares.
pub open spec fn network_keys() -> Seq<Seq<char>> {
    seq!["name"@, "zone"@, "subdomain"@, "qtype"@, "dns"@]
}

/// `d` is what the tree `y` decodes to as a network record.
pub open spec fn network_from(y: Yaml, d: Network) -> bool {
    &&& y is Table
    &&& closed(y->Table_0@, network_keys())
    &&& text_at(y->Table_0@, "name"@) == Some(d.name@)
    &&& text_at(y->Table_0@, "zone"@) == Some(d.zone@)
    &&& text_or_empty_at(y->Table_0@, "subdomain"@) == Some(d.subdomain@)
    &&& text_at(y->Table_0@, "qtype"@) == Some(d.qtype@)
    &&& texts_or_empty_at(y->Table_0@, "dns"@) == Some(views(d.dns@))
}

fn network_key_list() -> (r: Vec<String>)
    ensures
        views(r@) == network_keys(),
{
    let mut v: Vec<String> = Vec::new();
    v.push("name".to_owned());
    v.push("zone".to_owned());
    v.push("subdomain".to_owned());
    v.push("qtype".to_owned());
    v.push("dns".to_owned());
    assert(views(v@) =~= network_keys());
    v
}

/// Decodes a network record, refusing any key that it does not declare.
pub fn decode_network(y: &Yaml) -> (r: Result<Network, DecodeError>)
    ensures
        !(r matches Err(DecodeError::Syntax(_))),
        r is Ok <==> exists|d: Network| network_from(*y, d),
        r matches Ok(d) ==> network_from(*y, d),
        y is Table && !closed(y->Table_0@, network_keys()) ==> unknown_key_error(y->Table_0@, network_keys(), r),
{
    match y {
        Yaml::Table(es) => {
            if let Err(e) = check_closed(es, &network_key_list()) {
                return Err(e);
            }
            let name = match get_text(es, &"name".to_owned()) { Ok(v) => v, Err(e) => return Err(e) };
            let zone = match get_text(es, &"zone".to_owned()) { Ok(v) => v, Err(e) => return Err(e) };
            let subdomain = match get_text_or_empty(es, &"subdomain".to_owned()) { Ok(v) => v, Err(e) => return Err(e) };
            let qtype = match get_text(es, &"qtype".to_owned()) { Ok(v) => v, Err(e) => return Err(e) };
            let dns = match get_texts_or_empty(es, &"dns".to_owned()) { Ok(v) => v, Err(e) => return Err(e) };
            let d = Network { name, zone, subdomain, qtype, dns };
            assert(network_from(*y, d));
            Ok(d)
        },
        _ => Err(DecodeError::NotAMapping),
    }
}

/// A user account of a virtual machine. `role` and `authorized_keys` are empty where absent.
#[derive(Debug, Clone)]
pub struct User {
    pub username: String,
    pub role: String,
    pub authorized_keys: Vec<String>,
}

/// The keys that a user record declares.
pub open spec fn user_keys() -> Seq<Seq<char>> {
    seq!["username"@, "role"@, "authorized_keys"@]
}

/// `d` is what the tree `y` decodes to as a user record.
pub open spec fn user_from(y: Yaml, d: User) -> bool {
    &&& y is Table
    &&& closed(y->Table_0@, user_keys())
    &&& text_at(y->Table_0@, "username"@) == Some(d.username@)
    &&& text_or_empty_at(y->Table_0@, "role"@) == Some(d.role@)
    &&& texts_or_empty_at(y->Table_0@, "authorized_keys"@) == Some(views(d.authorized_keys@))
}

fn user_key_list() -> (r: Vec<String>)
    ensures
        views(r@) == user_keys(),
{
    let mut v: Vec<String> = Vec::new();
    v.push("username".to_owned());
    v.push("role".to_owned());
    v.push("authorized_keys".to_owned());
    assert(views(v@) =~= user_keys());
    v
}

/// Decodes a user record, refusing any key that it does not declare.
pub fn decode_user(y: &Yaml) -> (r: Result<User, DecodeError>)
    ensures
        !(r matches Err(DecodeError::Syntax(_))),
        r is Ok <==> exists|d: User| user_from(*y, d),
        r matches Ok(d) ==> user_from(*y, d),
        y is Table && !closed(y->Table_0@, user_keys()) ==> unknown_key_error(y->Table_0@, user_keys(), r),
{
    match y {
        Yaml::Table(es) => {
            if let Err(e) = check_closed(es, &user_key_list()) {
                return Err(e);
            }
            let username = match get_text(es, &"username".to_owned()) { Ok(v) => v, Err(e) => return Err(e) };
            let role = match get_text_or_empty(es, &"role".to_owned()) { Ok(v) => v, Err(e) => return Err(e) };
            let authorized_keys = match get_texts_or_empty(es, &"authorized_keys".to_owned()) { Ok(v) => v, Err(e) => return Err(e) };
            let d = User { username, role, authorized_keys };
            assert(user_from(*y, d));
            Ok(d)
        },
        _ => Err(DecodeError::NotAMapping),
    }
}

/// A virtual machine, found by its hostname.
#[derive(Debug, Clone)]
pub struct VM {
    pub hostname: String,
    pub image: String,
    pub cpu: String,
    pub vcpu: u16,
    pub memory: u64,
    pub disks: Vec<Disk>,
    pub networks: Vec<Network>,
    pub users: Vec<User>,
}

/// The keys that a vm record declares.
pub open spec fn vm_keys() -> Seq<Seq<char>> {
    seq!["hostname"@, "image"@, "cpu"@, "vcpu"@, "memory"@, "disks"@, "networks"@, "users"@]
}

/// `d` is what the tree `y` decodes to as a vm record.
pub open spec fn vm_from(y: Yaml, d: VM) -> bool {
    &&& y is Table
    &&& closed(y->Table_0@, vm_keys())
    &&& text_at(y->Table_0@, "hostname"@) == Some(d.hostname@)
    &&& text_at(y->Table_0@, "image"@) == Some(d.image@)
    &&& text_at(y->Table_0@, "cpu"@) == Some(d.cpu@)
    &&& u16_at(y->Table_0@, "vcpu"@) == Some(d.vcpu)
    &&& u64_at(y->Table_0@, "memory"@) == Some(d.memory)
    &&& list_at(y->Table_0@, "disks"@) is Some
    &&& disks_from(list_at(y->Table_0@, "disks"@)->Some_0, d.disks@)
    &&& list_at(y->Table_0@, "networks"@) is Some
    &&& networks_from(list_at(y->Table_0@, "networks"@)->Some_0, d.networks@)
    &&& list_at(y->Table_0@, "users"@) is Some
    &&& users_from(list_at(y->Table_0@, "users"@)->Some_0, d.users@)
}

fn vm_key_list() -> (r: Vec<String>)
    ensures
        views(r@) == vm_keys(),
{
    let mut v: Vec<String> = Vec::new();
    v.push("hostname".to_owned());
    v.push("image".to_owned());
    v.push("cpu".to_owned());
    v.push("vcpu".to_owned());
    v.push("memory".to_owned());
    v.push("disks".to_owned());
    v.push("networks".to_owned());
    v.push("users".to_owned());
    assert(views(v@) =~= vm_keys());
    v
}

/// Decodes a vm record, refusing any key that it, or a record inside it,
/// does not declare.
pub fn decode_vm(y: &Yaml) -> (r: Result<VM, DecodeError>)
    ensures
        !(r matches Err(DecodeError::Syntax(_))),
        r is Ok <==> exists|d: VM| vm_from(*y, d),
        r matches Ok(d) ==> vm_from(*y, d),
        y is Table && !closed(y->Table_0@, vm_keys()) ==> unknown_key_error(y->Table_0@, vm_keys(), r),
{
    match y {
        Yaml::Table(es) => {
            if let Err(e) = check_closed(es, &vm_key_list()) {
                return Err(e);
            }
            let hostname = match get_text(es, &"hostname".to_owned()) { Ok(v) => v, Err(e) => return Err(e) };
            let image = match get_text(es, &"image".to_owned()) { Ok(v) => v, Err(e) => return Err(e) };
            let cpu = match get_text(es, &"cpu".to_owned()) { Ok(v) => v, Err(e) => return Err(e) };
            let vcpu = match get_u16(es, &"vcpu".to_owned()) { Ok(v) => v, Err(e) => return Err(e) };
            let memory = match get_u64(es, &"memory".to_owned()) { Ok(v) => v, Err(e) => return Err(e) };
            let disks_src = match get_list(es, &"disks".to_owned()) { Ok(v) => v, Err(e) => return Err(e) };
            let disks = match decode_disks(disks_src) { Ok(v) => v, Err(e) => return Err(e) };
            let networks_src = match get_list(es, &"networks".to_owned()) { Ok(v) => v, Err(e) => return Err(e) };
            let networks = match decode_networks(networks_src) { Ok(v) => v, Err(e) => return Err(e) };
            let users_src = match get_list(es, &"users".to_owned()) { Ok(v) => v, Err(e) => return Err(e) };
            let users = match decode_users(users_src) { Ok(v) => v, Err(e) => return Err(e) };
            let d = VM { hostname, image, cpu, vcpu, memory, disks, networks, users };
            assert(vm_from(*y, d));
            Ok(d)
        },
        _ => Err(DecodeError::NotAMapping),
    }
}

/// Each tree of `items` decodes to the disk record at the same position.
pub open spec fn disks_from(items: Seq<Yaml>, ds: Seq<Disk>) -> bool {
    &&& items.len() == ds.len()
    &&& forall|i: int| 0 <= i < items.len() ==> #[trigger] disk_from(items[i], ds[i])
}

fn decode_disks(items: &Vec<Yaml>) -> (r: Result<Vec<Disk>, DecodeError>)
    ensures
        !(r matches Err(DecodeError::Syntax(_))),
        r is Ok <==> exists|ds: Seq<Disk>| disks_from(items@, ds),
        r matches Ok(ds) ==> disks_from(items@, ds@),
{
    let mut out: Vec<Disk> = Vec::new();
    let mut k: usize = 0;
    while k < items.len()
        invariant
            0 <= k <= items.len(),
            out@.len() == k,
            forall|i: int| 0 <= i < k ==> #[trigger] disk_from(items@[i], out@[i]),
        decreases items.len() - k,
    {
        match decode_disk(&items[k]) {
            Ok(d) => {
                out.push(d);
            },
            Err(e) => {
                assert forall|ds: Seq<Disk>| !disks_from(items@, ds) by {
                    if disks_from(items@, ds) {
                        assert(disk_from(items@[k as int], ds[k as int]));
                    }
                }
                return Err(e);
            },
        }
        k = k + 1;
    }
    assert(disks_from(items@, out@));
    Ok(out)
}

/// Each tree of `items` decodes to the network record at the same position.
pub open spec fn networks_from(items: Seq<Yaml>, ds: Seq<Network>) -> bool {
    &&& items.len() == ds.len()
    &&& forall|i: int| 0 <= i < items.len() ==> #[trigger] network_from(items[i], ds[i])
}

fn decode_networks(items: &Vec<Yaml>) -> (r: Result<Vec<Network>, DecodeError>)
    ensures
        !(r matches Err(DecodeError::Syntax(_))),
        r is Ok <==> exists|ds: Seq<Network>| networks_from(items@, ds),
        r matches Ok(ds) ==> networks_from(items@, ds@),
{
    let mut out: Vec<Network> = Vec::new();
    let mut k: usize = 0;
    while k < items.len()
        invariant
            0 <= k <= items.len(),
            out@.len() == k,
            forall|i: int| 0 <= i < k ==> #[trigger] network_from(items@[i], out@[i]),
        decreases items.len() - k,
    {
        match decode_network(&items[k]) {
            Ok(d) => {
                out.push(d);
            },
            Err(e) => {
                assert forall|ds: Seq<Network>| !networks_from(items@, ds) by {
                    if networks_from(items@, ds) {
                        assert(network_from(items@[k as int], ds[k as int]));
                    }
                }
                return Err(e);
            },
        }
        k = k + 1;
    }
    assert(networks_from(items@, out@));
    Ok(out)
}

/// Each tree of `items` decodes to the user record at the same position.
pub open spec fn users_from(items: Seq<Yaml>, ds: Seq<User>) -> bool {
    &&& items.len() == ds.len()
    &&& forall|i: int| 0 <= i < items.len() ==> #[trigger] user_from(items[i], ds[i])
}

fn decode_users(items: &Vec<Yaml>) -> (r: Result<Vec<User>, DecodeError>)
    ensures
        !(r matches Err(DecodeError::Syntax(_))),
        r is Ok <==> exists|ds: Seq<User>| users_from(items@, ds),
        r matches Ok(ds) ==> users_from(items@, ds@),
{
    let mut out: Vec<User> = Vec::new();
    let mut k: usize = 0;
    while k < items.len()
        invariant
            0 <= k <= items.len(),
            out@.len() == k,
            forall|i: int| 0 <= i < k ==> #[trigger] user_from(items@[i], out@[i]),
        decreases items.len() - k,
    {
        match decode_user(&items[k]) {
            Ok(d) => {
                out.push(d);
            },
            Err(e) => {
                assert forall|ds: Seq<User>| !users_from(items@, ds) by {
                    if users_from(items@, ds) {
                        assert(user_from(items@[k as int], ds[k as int]));
                    }
                }
                return Err(e);
            },
        }
        k = k + 1;
    }
    assert(users_from(items@, out@));
    Ok(out)
}

/// Each tree of `items` decodes to the vm record at the same position.
pub open spec fn vms_from(items: Seq<Yaml>, ds: Seq<VM>) -> bool {
    &&& items.len() == ds.len()
    &&& forall|i: int| 0 <= i < items.len() ==> #[trigger] vm_from(items[i], ds[i])
}

fn decode_vms(items: &Vec<Yaml>) -> (r: Result<Vec<VM>, DecodeError>)
    ensures
        !(r matches Err(DecodeError::Syntax(_))),
        r is Ok <==> exists|ds: Seq<VM>| vms_from(items@, ds),
        r matches Ok(ds) ==> vms_from(items@, ds@),
{
    let mut out: Vec<VM> = Vec::new();
    let mut k: usize = 0;
    while k < items.len()
        invariant
            0 <= k <= items.len(),
            out@.len() == k,
            forall|i: int| 0 <= i < k ==> #[trigger] vm_from(items@[i], out@[i]),
        decreases items.len() - k,
    {
        match decode_vm(&items[k]) {
            Ok(d) => {
                out.push(d);
            },
            Err(e) => {
                assert forall|ds: Seq<VM>| !vms_from(items@, ds) by {
                    if vms_from(items@, ds) {
                        assert(vm_from(items@[k as int], ds[k as int]));
                    }
                }
                return Err(e);
            },
        }
        k = k + 1;
    }
    assert(vms_from(items@, out@));
    Ok(out)
}

/// No two entries of the mapping have the same name.
pub open spec fn names_unique(es: Seq<(String, Yaml)>) -> bool {
    forall|i: int, j: int| 0 <= i < j < es.len() ==> #[trigger] es[i].0@ != #[trigger] es[j].0@
}

/// The names of the mapping `y` are unique, each value is a scalar, and `s`
/// holds the same names and the values' texts in the same order.
pub open spec fn secrets_from(y: Yaml, s: Seq<(String, String)>) -> bool {
    &&& y is Table
    &&& names_unique(y->Table_0@)
    &&& y->Table_0@.len() == s.len()
    &&& forall|i: int|
        0 <= i < s.len() ==> {
            &&& #[trigger] scalar_text(y->Table_0@[i].1) is Some
            &&& s[i].0@ == y->Table_0@[i].0@
            &&& s[i].1@ == scalar_text(y->Table_0@[i].1)->Some_0
        }
}

fn decode_secrets(y: &Yaml, key: &String) -> (r: Result<Vec<(String, String)>, DecodeError>)
    ensures
        !(r matches Err(DecodeError::Syntax(_))),
        r is Ok <==> exists|s: Seq<(String, String)>| secrets_from(*y, s),
        r matches Ok(s) ==> secrets_from(*y, s@),
{
    match y {
        Yaml::Table(es) => {
            let mut out: Vec<(String, String)> = Vec::new();
            let mut k: usize = 0;
            while k < es.len()
                invariant
                    0 <= k <= es.len(),
                    y is Table && y->Table_0@ == es@,
                    out@.len() == k,
                    names_unique(es@.take(k as int)),
                    forall|i: int|
                        0 <= i < k ==> {
                            &&& #[trigger] scalar_text(es@[i].1) is Some
                            &&& out@[i].0@ == es@[i].0@
                            &&& out@[i].1@ == scalar_text(es@[i].1)->Some_0
                        },
                decreases es.len() - k,
            {
                assert forall|i: int| 0 <= i < k implies #[trigger] out@[i].0@ == es@[i].0@ by {
                    assert(scalar_text(es@[i].1) is Some);
                }
                let mut m: usize = 0;
                while m < k
                    invariant
                        0 <= m <= k < es.len(),
                        y is Table && y->Table_0@ == es@,
                        out@.len() == k,
                        forall|i: int| 0 <= i < k ==> #[trigger] out@[i].0@ == es@[i].0@,
                        forall|i: int| 0 <= i < m ==> #[trigger] es@[i].0@ != es@[k as int].0@,
                    decreases k - m,
                {
                    if out[m].0 == es[k].0 {
                        assert(es@[m as int].0@ == es@[k as int].0@);
                        assert(!names_unique(es@));
                        assert forall|s: Seq<(String, String)>| !secrets_from(*y, s) by {}
                        return Err(DecodeError::DuplicateKey(es[k].0.clone()));
                    }
                    m = m + 1;
                }
                assert(names_unique(es@.take(k as int + 1)));
                match text_of(&es[k].1) {
                    Some(v) => {
                        out.push((es[k].0.clone(), v));
                    },
                    None => {
                        assert forall|s: Seq<(String, String)>| !secrets_from(*y, s) by {
                            if secrets_from(*y, s) {
                                assert(scalar_text(y->Table_0@[k as int].1) is Some);
                            }
                        }
                        return Err(DecodeError::WrongType(key.clone()));
                    },
                }
                k = k + 1;
            }
            assert(es@.take(k as int) =~= es@);
            assert(secrets_from(*y, out@));
            Ok(out)
        },
        _ => Err(DecodeError::WrongType(key.clone())),
    }
}

fn get_value<'a>(es: &'a Vec<(String, Yaml)>, key: &String) -> (r: Result<&'a Yaml, DecodeError>)
    ensures
        value_at(es@, key@) is None ==> (r matches Err(DecodeError::MissingField(k)) && k@ == key@),
        !(r matches Err(DecodeError::Syntax(_))),
        match r {
            Ok(v) => value_at(es@, key@) == Some(*v),
            Err(_) => value_at(es@, key@) is None,
        },
{
    match find(es, key) {
        None => Err(DecodeError::MissingField(key.clone())),
        Some(i) => Ok(&es[i].1),
    }
}

/// The whole configuration: a controller, a hypervisor, named secrets and
/// the virtual machines in declaration order.
#[derive(Debug, Clone)]
pub struct Document {
    pub api: String,
    pub controller: Controller,
    pub hypervisor: Hypervisor,
    pub secrets: Vec<(String, String)>,
    pub vms: Vec<VM>,
}

/// The keys that a document declares.
pub open spec fn document_keys() -> Seq<Seq<char>> {
    seq!["api"@, "controller"@, "hypervisor"@, "secrets"@, "vms"@]
}

/// `d` is what the tree `y` decodes to as a document.
pub open spec fn document_from(y: Yaml, d: Document) -> bool {
    &&& y is Table
    &&& closed(y->Table_0@, document_keys())
    &&& text_at(y->Table_0@, "api"@) == Some(d.api@)
    &&& value_at(y->Table_0@, "controller"@) is Some
    &&& controller_from(value_at(y->Table_0@, "controller"@)->Some_0, d.controller)
    &&& value_at(y->Table_0@, "hypervisor"@) is Some
    &&& hypervisor_from(value_at(y->Table_0@, "hypervisor"@)->Some_0, d.hypervisor)
    &&& value_at(y->Table_0@, "secrets"@) is Some
    &&& secrets_from(value_at(y->Table_0@, "secrets"@)->Some_0, d.secrets@)
    &&& list_at(y->Table_0@, "vms"@) is Some
    &&& vms_from(list_at(y->Table_0@, "vms"@)->Some_0, d.vms@)
}

fn document_key_list() -> (r: Vec<String>)
    ensures
        views(r@) == document_keys(),
{
    let mut v: Vec<String> = Vec::new();
    v.push("api".to_owned());
    v.push("controller".to_owned());
    v.push("hypervisor".to_owned());
    v.push("secrets".to_owned());
    v.push("vms".to_owned());
    assert(views(v@) =~= document_keys());
    v
}

/// Decodes a document, refusing any key that it, or a record inside it,
/// does not declare.
pub fn decode_document(y: &Yaml) -> (r: Result<Document, DecodeError>)
    ensures
        !(r matches Err(DecodeError::Syntax(_))),
        r is Ok <==> exists|d: Document| document_from(*y, d),
        r matches Ok(d) ==> document_from(*y, d),
        y is Table && !closed(y->Table_0@, document_keys()) ==> unknown_key_error(
            y->Table_0@,
            document_keys(),
            r,
        ),
{
    match y {
        Yaml::Table(es) => {
            if let Err(e) = check_closed(es, &document_key_list()) {
                return Err(e);
            }
            let api = match get_text(es, &"api".to_owned()) { Ok(v) => v, Err(e) => return Err(e) };
            let controller_src = match get_value(es, &"controller".to_owned()) { Ok(v) => v, Err(e) => return Err(e) };
            let controller = match decode_controller(controller_src) { Ok(v) => v, Err(e) => return Err(e) };
            let hypervisor_src = match get_value(es, &"hypervisor".to_owned()) { Ok(v) => v, Err(e) => return Err(e) };
            let hypervisor = match decode_hypervisor(hypervisor_src) { Ok(v) => v, Err(e) => return Err(e) };
            let secrets_key = "secrets".to_owned();
            let secrets = match decode_secrets(match get_value(es, &secrets_key) { Ok(v) => v, Err(e) => return Err(e) }, &secrets_key) { Ok(v) => v, Err(e) => return Err(e) };
            let vms_src = match get_list(es, &"vms".to_owned()) { Ok(v) => v, Err(e) => return Err(e) };
            let vms = match decode_vms(vms_src) { Ok(v) => v, Err(e) => return Err(e) };
            let d = Document { api, controller, hypervisor, secrets, vms };
            assert(document_from(*y, d));
            Ok(d)
        },
        _ => Err(DecodeError::NotAMapping),
    }
}

/// Parses YAML text and decodes it as a document.
pub fn parse(text: &String) -> (r: Result<Document, DecodeError>)
    ensures
        !yaml_valid(text@) ==> r matches Err(DecodeError::Syntax(_)),
        yaml_valid(text@) ==> !(r matches Err(DecodeError::Syntax(_))),
        r matches Ok(d) ==> exists|y: Yaml| document_from(y, d),
{
    let y = match parse_tree(text) {
        Ok(y) => y,
        Err(e) => return Err(e),
    };
    decode_document(&y)
}

/// Why a lookup found nothing.
#[derive(Debug, Clone, PartialEq, Eq)]
pub enum LookupError {
    /// No virtual machine has the queried hostname.
    NotFound(String),
}

impl Document {
    /// The first virtual machine, in declaration order, whose hostname is
    /// `name`.
    pub fn vm(&self, name: &str) -> (r: Result<&VM, LookupError>)
        ensures
            r is Err <==> forall|i: int|
                0 <= i < self.vms@.len() ==> #[trigger] self.vms@[i].hostname@ != name@,
            r matches Err(LookupError::NotFound(n)) ==> n@ == name@,
            r matches Ok(v) ==> exists|i: int|
                0 <= i < self.vms@.len() && *v == self.vms@[i] && v.hostname@ == name@ && forall|
                    j: int,
                | 0 <= j < i ==> #[trigger] self.vms@[j].hostname@ != name@,
    {
        let wanted = name.to_owned();
        let mut i: usize = 0;
        while i < self.vms.len()
            invariant
                0 <= i <= self.vms.len(),
                wanted@ == name@,
                forall|j: int| 0 <= j < i ==> #[trigger] self.vms@[j].hostname@ != name@,
            decreases self.vms.len() - i,
        {
            if self.vms[i].hostname == wanted {
                return Ok(&self.vms[i]);
            }
            i = i + 1;
        }
        Err(LookupError::NotFound(wanted))
    }
}

} // verus!

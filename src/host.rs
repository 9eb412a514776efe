//! Host records, and the five field lists in which a registry is stored.

use vstd::prelude::*;

use crate::error::HostError;
use crate::fields::{
    command_from, command_text, free_of_sep, has_no_sep, join_fields, join_text,
    lemma_join_split, lemma_split_join, same_text, split_fields, split_text, texts,
};
use crate::registry::{aliases_unique, found, unique_aliases, Registry};
use crate::store::{read_back, read_fields, render_store, stored_form};

verus! {

/// One managed remote machine.
pub struct Host {
    /// Unique name by which the machine is referred to.
    pub alias: String,
    /// Address or host name of the machine.
    pub ip: String,
    /// User to log in as.
    pub ssh_user: String,
    /// Path to the private key used to log in.
    pub pk_path: String,
    /// Optional free text; empty when not given.
    pub description: String,
}

/// The values of a `Host`.
pub struct HostView {
    pub alias: Seq<char>,
    pub ip: Seq<char>,
    pub ssh_user: Seq<char>,
    pub pk_path: Seq<char>,
    pub description: Seq<char>,
}

impl View for Host {
    type V = HostView;

    open spec fn view(&self) -> HostView {
        HostView {
            alias: self.alias@,
            ip: self.ip@,
            ssh_user: self.ssh_user@,
            pk_path: self.pk_path@,
            description: self.description@,
        }
    }
}

impl Clone for Host {
    fn clone(&self) -> (r: Host)
        ensures
            r@ == self@,
    {
        Host {
            alias: self.alias.clone(),
            ip: self.ip.clone(),
            ssh_user: self.ssh_user.clone(),
            pk_path: self.pk_path.clone(),
            description: self.description.clone(),
        }
    }
}

impl Host {
    pub fn new(alias: &str, ip: &str, ssh_user: &str, pk_path: &str, description: &str) -> (r: Host)
        ensures
            r@ == (HostView {
                alias: alias@,
                ip: ip@,
                ssh_user: ssh_user@,
                pk_path: pk_path@,
                description: description@,
            }),
    {
        Host {
            alias: String::from_str(alias),
            ip: String::from_str(ip),
            ssh_user: String::from_str(ssh_user),
            pk_path: String::from_str(pk_path),
            description: String::from_str(description),
        }
    }
}

/// The values of a sequence of hosts.
pub open spec fn views(v: Seq<Host>) -> Seq<HostView> {
    v.map_values(|h: Host| h@)
}

/// The five fields of several hosts, each a list joined into one string.
pub struct Hosts {
    pub aliases: String,
    pub ips: String,
    pub ssh_users: String,
    pub pk_paths: String,
    pub descriptions: String,
}

/// The values of a `Hosts`.
pub struct FieldLists {
    pub aliases: Seq<char>,
    pub ips: Seq<char>,
    pub ssh_users: Seq<char>,
    pub pk_paths: Seq<char>,
    pub descriptions: Seq<char>,
}

impl View for Hosts {
    type V = FieldLists;

    open spec fn view(&self) -> FieldLists {
        FieldLists {
            aliases: self.aliases@,
            ips: self.ips@,
            ssh_users: self.ssh_users@,
            pk_paths: self.pk_paths@,
            descriptions: self.descriptions@,
        }
    }
}

pub open spec fn aliases_of(r: Seq<HostView>) -> Seq<Seq<char>> {
    r.map_values(|h: HostView| h.alias)
}

pub open spec fn ips_of(r: Seq<HostView>) -> Seq<Seq<char>> {
    r.map_values(|h: HostView| h.ip)
}

pub open spec fn users_of(r: Seq<HostView>) -> Seq<Seq<char>> {
    r.map_values(|h: HostView| h.ssh_user)
}

pub open spec fn paths_of(r: Seq<HostView>) -> Seq<Seq<char>> {
    r.map_values(|h: HostView| h.pk_path)
}

pub open spec fn descriptions_of(r: Seq<HostView>) -> Seq<Seq<char>> {
    r.map_values(|h: HostView| h.description)
}

/// The field lists under which the records `r` are stored.
pub open spec fn bundled(r: Seq<HostView>) -> FieldLists {
    FieldLists {
        aliases: join_fields(aliases_of(r)),
        ips: join_fields(ips_of(r)),
        ssh_users: join_fields(users_of(r)),
        pk_paths: join_fields(paths_of(r)),
        descriptions: join_fields(descriptions_of(r)),
    }
}

/// The store of no records: five empty lists.
pub open spec fn is_empty_store(f: FieldLists) -> bool {
    &&& f.aliases.len() == 0
    &&& f.ips.len() == 0
    &&& f.ssh_users.len() == 0
    &&& f.pk_paths.len() == 0
    &&& f.descriptions.len() == 0
}

/// The field lists can be read back: they are the empty store, or each of the
/// five splits into the same number of values.
pub open spec fn aligned(f: FieldLists) -> bool {
    is_empty_store(f) || {
        let n = split_fields(f.aliases).len();
        &&& split_fields(f.ips).len() == n
        &&& split_fields(f.ssh_users).len() == n
        &&& split_fields(f.pk_paths).len() == n
        &&& split_fields(f.descriptions).len() == n
    }
}

/// The records read from aligned field lists: the i-th record takes the i-th
/// value of each list.
pub open spec fn decoded(f: FieldLists) -> Seq<HostView> {
    if is_empty_store(f) {
        Seq::empty()
    } else {
        Seq::new(
            split_fields(f.aliases).len(),
            |i: int|
                HostView {
                    alias: split_fields(f.aliases)[i],
                    ip: split_fields(f.ips)[i],
                    ssh_user: split_fields(f.ssh_users)[i],
                    pk_path: split_fields(f.pk_paths)[i],
                    description: split_fields(f.descriptions)[i],
                },
        )
    }
}

/// Every record has an alias, and every value can stand in a field list.
pub open spec fn storable(r: Seq<HostView>) -> bool {
    forall|i: int|
        0 <= i < r.len() ==> {
            &&& (#[trigger] r[i]).alias.len() > 0
            &&& free_of_sep(r[i].alias)
            &&& free_of_sep(r[i].ip)
            &&& free_of_sep(r[i].ssh_user)
            &&& free_of_sep(r[i].pk_path)
            &&& free_of_sep(r[i].description)
        }
}

/// Bundles the hosts into five field lists, each value followed by the next
/// after one `|`.
pub fn bundle_hosts(to_hosts: &Vec<Host>) -> (r: Hosts)
    ensures
        r@ == bundled(views(to_hosts@)),
{
    let ghost r = views(to_hosts@);
    let mut aliases: Vec<String> = Vec::new();
    let mut ips: Vec<String> = Vec::new();
    let mut ssh_users: Vec<String> = Vec::new();
    let mut pk_paths: Vec<String> = Vec::new();
    let mut descriptions: Vec<String> = Vec::new();
    let mut i: usize = 0;
    while i < to_hosts.len()
        invariant
            r == views(to_hosts@),
            i <= to_hosts@.len(),
            texts(aliases@) == aliases_of(r.subrange(0, i as int)),
            texts(ips@) == ips_of(r.subrange(0, i as int)),
            texts(ssh_users@) == users_of(r.subrange(0, i as int)),
            texts(pk_paths@) == paths_of(r.subrange(0, i as int)),
            texts(descriptions@) == descriptions_of(r.subrange(0, i as int)),
        decreases to_hosts@.len() - i,
    {
        let host = &to_hosts[i];
        let ghost a0 = aliases@;
        let ghost a1 = ips@;
        let ghost a2 = ssh_users@;
        let ghost a3 = pk_paths@;
        let ghost a4 = descriptions@;
        aliases.push(host.alias.clone());
        ips.push(host.ip.clone());
        ssh_users.push(host.ssh_user.clone());
        pk_paths.push(host.pk_path.clone());
        descriptions.push(host.description.clone());
        let ghost s = r.subrange(0, i + 1);
        assert(s =~= r.subrange(0, i as int).push(host@));
        assert(texts(aliases@) =~= texts(a0).push(host.alias@));
        assert(texts(ips@) =~= texts(a1).push(host.ip@));
        assert(texts(ssh_users@) =~= texts(a2).push(host.ssh_user@));
        assert(texts(pk_paths@) =~= texts(a3).push(host.pk_path@));
        assert(texts(descriptions@) =~= texts(a4).push(host.description@));
        assert(aliases_of(s) =~= aliases_of(r.subrange(0, i as int)).push(host.alias@));
        assert(ips_of(s) =~= ips_of(r.subrange(0, i as int)).push(host.ip@));
        assert(users_of(s) =~= users_of(r.subrange(0, i as int)).push(host.ssh_user@));
        assert(paths_of(s) =~= paths_of(r.subrange(0, i as int)).push(host.pk_path@));
        assert(descriptions_of(s) =~= descriptions_of(r.subrange(0, i as int)).push(
            host.description@,
        ));
        i = i + 1;
    }
    assert(r.subrange(0, i as int) =~= r);
    Hosts {
        aliases: join_text(&aliases),
        ips: join_text(&ips),
        ssh_users: join_text(&ssh_users),
        pk_paths: join_text(&pk_paths),
        descriptions: join_text(&descriptions),
    }
}

/// The field lists make a registry: they are aligned, and the records read
/// from them have non-empty, distinct aliases.
pub open spec fn loadable(f: FieldLists) -> bool {
    &&& aligned(f)
    &&& storable(decoded(f))
    &&& unique_aliases(decoded(f))
}

/// Reads records back from five field lists: the i-th record takes the i-th
/// value of each list. Fails with `StorageCorrupt` when the lists hold
/// different numbers of values, so no record is ever read half, and when an
/// alias is empty or repeated.
pub fn unbundle_hosts(hosts: &Hosts) -> (r: Result<Vec<Host>, HostError>)
    ensures
        r is Ok <==> loadable(hosts@),
        r matches Ok(v) ==> views(v@) == decoded(hosts@),
        r matches Err(e) ==> e == HostError::StorageCorrupt,
{
    match zip_fields(hosts) {
        Some(v) => {
            if all_storable(&v) && aliases_unique(&v) {
                Ok(v)
            } else {
                Err(HostError::StorageCorrupt)
            }
        },
        None => Err(HostError::StorageCorrupt),
    }
}

/// Whether every record has an alias and no value holds the separator.
pub fn all_storable(hosts: &Vec<Host>) -> (r: bool)
    ensures
        r == storable(views(hosts@)),
{
    let ghost v = views(hosts@);
    let mut i: usize = 0;
    while i < hosts.len()
        invariant
            v == views(hosts@),
            i <= hosts@.len(),
            forall|k: int|
                0 <= k < i ==> {
                    &&& (#[trigger] v[k]).alias.len() > 0
                    &&& free_of_sep(v[k].alias)
                    &&& free_of_sep(v[k].ip)
                    &&& free_of_sep(v[k].ssh_user)
                    &&& free_of_sep(v[k].pk_path)
                    &&& free_of_sep(v[k].description)
                },
        decreases hosts@.len() - i,
    {
        let h = &hosts[i];
        assert(v[i as int] == h@);
        if !(h.alias.as_str().unicode_len() > 0 && has_no_sep(h.alias.as_str()) && has_no_sep(
            h.ip.as_str(),
        ) && has_no_sep(h.ssh_user.as_str()) && has_no_sep(h.pk_path.as_str()) && has_no_sep(
            h.description.as_str(),
        )) {
            return false;
        }
        i = i + 1;
    }
    true
}

/// The records zipped out of aligned field lists.
fn zip_fields(hosts: &Hosts) -> (r: Option<Vec<Host>>)
    ensures
        r is Some <==> aligned(hosts@),
        r matches Some(v) ==> views(v@) == decoded(hosts@),
{
    if hosts.aliases.as_str().unicode_len() == 0 && hosts.ips.as_str().unicode_len() == 0
        && hosts.ssh_users.as_str().unicode_len() == 0 && hosts.pk_paths.as_str().unicode_len()
        == 0 && hosts.descriptions.as_str().unicode_len() == 0 {
        let v: Vec<Host> = Vec::new();
        assert(views(v@) =~= decoded(hosts@));
        return Some(v);
    }
    let aliases = split_text(hosts.aliases.as_str());
    let ips = split_text(hosts.ips.as_str());
    let users = split_text(hosts.ssh_users.as_str());
    let pk_paths = split_text(hosts.pk_paths.as_str());
    let descs = split_text(hosts.descriptions.as_str());
    let n = aliases.len();
    if ips.len() != n || users.len() != n || pk_paths.len() != n || descs.len() != n {
        return None;
    }
    let ghost d = decoded(hosts@);
    let mut r_hosts: Vec<Host> = Vec::new();
    let mut i: usize = 0;
    while i < n
        invariant
            n == aliases@.len() == ips@.len() == users@.len() == pk_paths@.len() == descs@.len(),
            d == decoded(hosts@),
            d.len() == n,
            texts(aliases@) == split_fields(hosts.aliases@),
            texts(ips@) == split_fields(hosts.ips@),
            texts(users@) == split_fields(hosts.ssh_users@),
            texts(pk_paths@) == split_fields(hosts.pk_paths@),
            texts(descs@) == split_fields(hosts.descriptions@),
            !is_empty_store(hosts@),
            i <= n,
            views(r_hosts@) == d.subrange(0, i as int),
        decreases n - i,
    {
        let host = Host {
            alias: aliases[i].clone(),
            ip: ips[i].clone(),
            ssh_user: users[i].clone(),
            pk_path: pk_paths[i].clone(),
            description: descs[i].clone(),
        };
        assert(texts(aliases@)[i as int] == aliases@[i as int]@);
        assert(texts(ips@)[i as int] == ips@[i as int]@);
        assert(texts(users@)[i as int] == users@[i as int]@);
        assert(texts(pk_paths@)[i as int] == pk_paths@[i as int]@);
        assert(texts(descs@)[i as int] == descs@[i as int]@);
        assert(host@ == d[i as int]);
        let ghost prev = r_hosts@;
        r_hosts.push(host);
        assert(views(r_hosts@) =~= views(prev).push(d[i as int]));
        assert(d.subrange(0, i + 1) =~= d.subrange(0, i as int).push(d[i as int]));
        i = i + 1;
    }
    assert(d.subrange(0, n as int) =~= d);
    Some(r_hosts)
}

/// Loads the records from the text of a store. `StorageCorrupt` where the
/// text is not a store, or its field lists do not make a registry.
pub fn get_hosts(text: &str) -> (r: Result<Vec<Host>, HostError>)
    ensures
        r is Ok <==> (read_back(text@) matches Some(f) && loadable(f)),
        r matches Ok(v) ==> views(v@) == decoded(read_back(text@)->0),
        r matches Err(e) ==> e == HostError::StorageCorrupt,
{
    match read_fields(text) {
        Ok(hosts) => unbundle_hosts(&hosts),
        Err(e) => Err(e),
    }
}

/// The text of the store that holds these records; `InvalidRecord`, and no
/// text, where an alias is empty or a value holds the separator.
pub fn store_text(hosts: &Vec<Host>) -> (r: Result<String, HostError>)
    ensures
        r is Ok <==> storable(views(hosts@)),
        r matches Ok(t) ==> t@ == stored_form(bundled(views(hosts@))),
        r matches Err(e) ==> e == HostError::InvalidRecord,
{
    if all_storable(hosts) {
        Ok(render_store(&bundle_hosts(hosts)))
    } else {
        Err(HostError::InvalidRecord)
    }
}

/// The text of a fresh store that holds no record.
pub fn create_cfg() -> (r: String)
    ensures
        r@ == stored_form(bundled(Seq::<HostView>::empty())),
{
    let none: Vec<Host> = Vec::new();
    assert(views(none@) =~= Seq::<HostView>::empty());
    render_store(&bundle_hosts(&none))
}

/// A copy of the first record with this alias; `NotFound` where none has it.
pub fn get_host_by_alias(registry: &Registry, alias: &str) -> (r: Result<Host, HostError>)
    ensures
        match found(registry@, alias@) {
            Some(h) => r matches Ok(x) && x@ == h,
            None => r == Err::<Host, HostError>(HostError::NotFound),
        },
{
    match registry.find_by_alias(alias) {
        Some(h) => Ok(h.clone()),
        None => Err(HostError::NotFound),
    }
}

/// The commands run on a host to report its status: uptime, disk use of the
/// root file system, and io statistics.
pub fn status_probes() -> (r: Vec<String>)
    ensures
        texts(r@) == seq!["uptime"@, "df -h /"@, "iostat | head -n 4"@],
{
    let mut r: Vec<String> = Vec::new();
    r.push(String::from_str("uptime"));
    r.push(String::from_str("df -h /"));
    r.push(String::from_str("iostat | head -n 4"));
    assert(texts(r@) =~= seq!["uptime"@, "df -h /"@, "iostat | head -n 4"@]);
    r
}

/// What a `host` command line asks for.
pub enum HostCommand {
    Help,
    Status { alias: String },
    Add(Host),
    Del { alias: String },
    Ls,
    Exec { alias: String, cmd: String },
    Reboot { alias: String },
    Shutdown { alias: String },
}

pub enum HostCommandView {
    Help,
    Status { alias: Seq<char> },
    Add(HostView),
    Del { alias: Seq<char> },
    Ls,
    Exec { alias: Seq<char>, cmd: Seq<char> },
    Reboot { alias: Seq<char> },
    Shutdown { alias: Seq<char> },
}

impl View for HostCommand {
    type V = HostCommandView;

    open spec fn view(&self) -> HostCommandView {
        match self {
            HostCommand::Help => HostCommandView::Help,
            HostCommand::Status { alias } => HostCommandView::Status { alias: alias@ },
            HostCommand::Add(h) => HostCommandView::Add(h@),
            HostCommand::Del { alias } => HostCommandView::Del { alias: alias@ },
            HostCommand::Ls => HostCommandView::Ls,
            HostCommand::Exec { alias, cmd } => HostCommandView::Exec { alias: alias@, cmd: cmd@ },
            HostCommand::Reboot { alias } => HostCommandView::Reboot { alias: alias@ },
            HostCommand::Shutdown { alias } => HostCommandView::Shutdown { alias: alias@ },
        }
    }
}

/// The command that the arguments `program host <sub> ...` ask for:
/// `status <alias>`, `add <alias> <user> <key path> <ip> [description]`,
/// `del <alias>`, `ls`, `exec <alias> [cmd...]`, `reboot <alias>`,
/// `shutdown <alias>`; help for anything else or a wrong number of
/// arguments.
pub open spec fn parse_host_args(a: Seq<Seq<char>>) -> HostCommandView {
    if a.len() < 3 {
        HostCommandView::Help
    } else if a[2] == "status"@ && a.len() == 4 {
        HostCommandView::Status { alias: a[3] }
    } else if a[2] == "add"@ && a.len() >= 7 {
        HostCommandView::Add(
            HostView {
                alias: a[3],
                ssh_user: a[4],
                pk_path: a[5],
                ip: a[6],
                description: if a.len() > 7 {
                    a[7]
                } else {
                    Seq::empty()
                },
            },
        )
    } else if a[2] == "del"@ && a.len() == 4 {
        HostCommandView::Del { alias: a[3] }
    } else if a[2] == "ls"@ {
        HostCommandView::Ls
    } else if a[2] == "exec"@ && a.len() >= 4 {
        HostCommandView::Exec { alias: a[3], cmd: command_text(a.subrange(4, a.len() as int)) }
    } else if a[2] == "reboot"@ && a.len() == 4 {
        HostCommandView::Reboot { alias: a[3] }
    } else if a[2] == "shutdown"@ && a.len() == 4 {
        HostCommandView::Shutdown { alias: a[3] }
    } else {
        HostCommandView::Help
    }
}

/// Reads a `host` command line.
pub fn base(args: Vec<String>) -> (r: HostCommand)
    ensures
        r@ == parse_host_args(texts(args@)),
{
    let ghost a = texts(args@);
    let n = args.len();
    if n < 3 {
        return HostCommand::Help;
    }
    assert(a[2] == args@[2]@);
    let cmd = args[2].as_str();
    if n > 3 {
        assert(a[3] == args@[3]@);
    }
    if same_text(cmd, "status") && n == 4 {
        HostCommand::Status { alias: args[3].clone() }
    } else if same_text(cmd, "add") && n >= 7 {
        assert(a[4] == args@[4]@ && a[5] == args@[5]@ && a[6] == args@[6]@);
        let description = if n > 7 {
            assert(a[7] == args@[7]@);
            args[7].clone()
        } else {
            String::new()
        };
        HostCommand::Add(
            Host {
                alias: args[3].clone(),
                ssh_user: args[4].clone(),
                pk_path: args[5].clone(),
                ip: args[6].clone(),
                description,
            },
        )
    } else if same_text(cmd, "del") && n == 4 {
        HostCommand::Del { alias: args[3].clone() }
    } else if same_text(cmd, "ls") {
        HostCommand::Ls
    } else if same_text(cmd, "exec") && n >= 4 {
        HostCommand::Exec { alias: args[3].clone(), cmd: command_from(&args, 4) }
    } else if same_text(cmd, "reboot") && n == 4 {
        HostCommand::Reboot { alias: args[3].clone() }
    } else if same_text(cmd, "shutdown") && n == 4 {
        HostCommand::Shutdown { alias: args[3].clone() }
    } else {
        HostCommand::Help
    }
}

/// Storing what was read gives back the very field lists it was read from.
pub proof fn lemma_bundle_decoded(f: FieldLists)
    requires
        aligned(f),
    ensures
        bundled(decoded(f)) == f,
{
    let d = decoded(f);
    if is_empty_store(f) {
        assert(aliases_of(d) =~= Seq::<Seq<char>>::empty());
        assert(ips_of(d) =~= Seq::<Seq<char>>::empty());
        assert(users_of(d) =~= Seq::<Seq<char>>::empty());
        assert(paths_of(d) =~= Seq::<Seq<char>>::empty());
        assert(descriptions_of(d) =~= Seq::<Seq<char>>::empty());
        assert(f.aliases =~= Seq::<char>::empty());
        assert(f.ips =~= Seq::<char>::empty());
        assert(f.ssh_users =~= Seq::<char>::empty());
        assert(f.pk_paths =~= Seq::<char>::empty());
        assert(f.descriptions =~= Seq::<char>::empty());
    } else {
        assert(aliases_of(d) =~= split_fields(f.aliases));
        assert(ips_of(d) =~= split_fields(f.ips));
        assert(users_of(d) =~= split_fields(f.ssh_users));
        assert(paths_of(d) =~= split_fields(f.pk_paths));
        assert(descriptions_of(d) =~= split_fields(f.descriptions));
        lemma_join_split(f.aliases);
        lemma_join_split(f.ips);
        lemma_join_split(f.ssh_users);
        lemma_join_split(f.pk_paths);
        lemma_join_split(f.descriptions);
    }
}

/// Loading, storing and loading again gives what the first load gave, and
/// the stored form is the one that was loaded.
pub proof fn lemma_load_store_load(f: FieldLists)
    requires
        aligned(f),
    ensures
        aligned(bundled(decoded(f))),
        decoded(bundled(decoded(f))) == decoded(f),
{
    lemma_bundle_decoded(f);
}

/// Records with aliases, whose values hold no separator, are read back from
/// their stored form exactly.
pub proof fn lemma_decoded_bundle(r: Seq<HostView>)
    requires
        storable(r),
    ensures
        aligned(bundled(r)),
        decoded(bundled(r)) == r,
{
    let f = bundled(r);
    if r.len() == 0 {
        assert(aliases_of(r) =~= Seq::<Seq<char>>::empty());
        assert(ips_of(r) =~= Seq::<Seq<char>>::empty());
        assert(users_of(r) =~= Seq::<Seq<char>>::empty());
        assert(paths_of(r) =~= Seq::<Seq<char>>::empty());
        assert(descriptions_of(r) =~= Seq::<Seq<char>>::empty());
        assert(decoded(f) =~= r);
    } else {
        assert forall|k: int| 0 <= k < r.len() implies free_of_sep(#[trigger] aliases_of(r)[k])
            && free_of_sep(ips_of(r)[k]) && free_of_sep(users_of(r)[k]) && free_of_sep(
            paths_of(r)[k],
        ) && free_of_sep(descriptions_of(r)[k]) by {
            assert(free_of_sep(r[k].alias));
        }
        lemma_split_join(aliases_of(r));
        lemma_split_join(ips_of(r));
        lemma_split_join(users_of(r));
        lemma_split_join(paths_of(r));
        lemma_split_join(descriptions_of(r));
        assert(r[0].alias.len() > 0);
        if r.len() == 1 {
            assert(f.aliases == r[0].alias);
        } else {
            assert(f.aliases == join_fields(aliases_of(r).drop_last()) + seq!['|'] + aliases_of(
                r,
            ).last());
        }
        assert(!is_empty_store(f));
        assert(decoded(f) =~= r);
    }
}

} // verus!

//! Finding Music Assistant servers on the local network by multicast DNS.
use vstd::prelude::*;
use crate::address;
use crate::address::{notation_text, parse_ip_from_base_url, select_preferred_ip, IpAddress};
use crate::text;
use crate::text::{clone_text, decimal_text, join, join3, same_text, trim_end_text};

verus! {

/// The service type that servers announce.
pub const MA_SERVICE_TYPE: &'static str = "_mass._tcp.local.";

/// How long to wait for one announcement before looking at the clock again.
pub const RECEIVE_TIMEOUT_MS: u64 = 100;

/// The properties in the TXT record of an announcement.
#[verifier::external_type_specification]
#[verifier::external_body]
pub struct ExTxtProperties(mdns_sd::TxtProperties);

/// What the properties of a TXT record say: to the lower-case form of each key,
/// the text of the first value given for it, empty where the value is missing or
/// is not text.
pub uninterp spec fn txt_values(properties: mdns_sd::TxtProperties) -> Map<Seq<char>, Seq<char>>;

/// Whether a key is made of lower-case ASCII letters and underscores, and so is
/// its own lower-case form.
pub open spec fn is_plain_key(key: Seq<char>) -> bool {
    forall|i: int| 0 <= i < key.len() ==> 97 <= (#[trigger] key[i]) as int <= 122 || key[i] == '_'
}

/// What a TXT record says for a key.
pub open spec fn txt_lookup(values: Map<Seq<char>, Seq<char>>, key: Seq<char>) -> Option<Seq<char>> {
    if values.dom().contains(key) {
        Some(values[key])
    } else {
        None
    }
}

/// Calls `mdns_sd::TxtProperties::get_property_val_str`, which ignores the case
/// of keys and returns the value of the first property that has the key.
/// Claimed of it: for a lower-case key the answer is what the properties say for
/// that key.
#[verifier::external_body]
fn txt_value(properties: &mdns_sd::TxtProperties, key: &str) -> (r: Option<String>)
    requires
        is_plain_key(key@),
    ensures
        text::opt_text(r) == txt_lookup(txt_values(*properties), key@),
{
    properties.get_property_val_str(key).map(|value| value.to_string())
}

/// What is of interest in the TXT record of an announcement.
#[derive(Debug, PartialEq, Eq)]
pub struct ServiceTxt {
    pub server_id: Option<String>,
    pub id: Option<String>,
    pub base_url: Option<String>,
    pub https: Option<String>,
}

/// Reads from the TXT record of an announcement what is of interest.
pub fn read_txt(properties: &mdns_sd::TxtProperties) -> (r: ServiceTxt)
    ensures
        text::opt_text(r.server_id) == txt_lookup(txt_values(*properties), "server_id"@),
        text::opt_text(r.id) == txt_lookup(txt_values(*properties), "id"@),
        text::opt_text(r.base_url) == txt_lookup(txt_values(*properties), "base_url"@),
        text::opt_text(r.https) == txt_lookup(txt_values(*properties), "https"@),
{
    proof {
        reveal_strlit("server_id");
        reveal_strlit("id");
        reveal_strlit("base_url");
        reveal_strlit("https");
    }
    ServiceTxt {
        server_id: txt_value(properties, "server_id"),
        id: txt_value(properties, "id"),
        base_url: txt_value(properties, "base_url"),
        https: txt_value(properties, "https"),
    }
}

/// An announcement of a server.
#[derive(Debug, PartialEq, Eq)]
pub struct ServiceRecord {
    /// The full name of the announced service.
    pub fullname: String,
    /// What its TXT record says.
    pub txt: ServiceTxt,
    /// Its port.
    pub port: u16,
    /// Its addresses.
    pub addresses: Vec<IpAddress>,
}

/// A server that was found.
#[derive(Debug, Clone, PartialEq, Eq)]
pub struct DiscoveredServer {
    /// Friendly name of the server.
    pub name: String,
    /// Server ID, where the server announces one.
    pub server_id: Option<String>,
    /// Address and port.
    pub address: String,
    /// URL to connect to.
    pub url: String,
    /// Whether HTTPS is available.
    pub https: bool,
}

/// The server ID that an announcement gives, under either of two keys.
pub open spec fn announced_id(txt: ServiceTxt) -> Option<Seq<char>> {
    if txt.server_id is Some {
        text::opt_text(txt.server_id)
    } else {
        text::opt_text(txt.id)
    }
}

/// By what announcements of the same server are known: its ID, else its full name.
pub open spec fn server_key(record: ServiceRecord) -> Seq<char> {
    match announced_id(record.txt) {
        Some(id) => id,
        None => record.fullname@,
    }
}

/// The name of a server without the parts that all servers have in common.
pub open spec fn friendly_name(fullname: Seq<char>) -> Seq<char> {
    text::trimmed_end(text::trimmed_end(fullname, ".local."@), "._mass._tcp"@)
}

/// Whether an announcement says that HTTPS is available.
pub open spec fn announces_https(txt: ServiceTxt) -> bool {
    txt.https matches Some(value) && (value@ == "true"@ || value@ == "1"@)
}

/// The address that an announced server is contacted at.
pub open spec fn server_ip(record: ServiceRecord) -> Option<IpAddress> {
    let announced = match record.txt.base_url {
        Some(url) => address::base_url_ip(url@),
        None => None,
    };
    address::preferred_ip(announced, record.addresses@)
}

/// Whether `server` is the server of an announcement, contacted at `ip`.
pub open spec fn is_server_at(record: ServiceRecord, ip: IpAddress, server: DiscoveredServer) -> bool {
    &&& server.name@ == friendly_name(record.fullname@)
    &&& text::opt_text(server.server_id) == announced_id(record.txt)
    &&& server.https == announces_https(record.txt)
    &&& server.address@ == address::notation(ip) + ":"@ + text::decimal(record.port as nat)
    &&& server.url@ == (if server.https {
        "https"@
    } else {
        "http"@
    }) + "://"@ + server.address@
}

/// A server that was found, and by what its announcements are known.
#[derive(Debug, PartialEq, Eq)]
pub struct FoundServer {
    pub key: String,
    pub server: DiscoveredServer,
}

/// Whether `found` is what an announcement amounts to: nothing where the server
/// has no address.
pub open spec fn is_found_in(record: ServiceRecord, found: Option<FoundServer>) -> bool {
    match (server_ip(record), found) {
        (Some(ip), Some(entry)) => entry.key@ == server_key(record) && is_server_at(
            record,
            ip,
            entry.server,
        ),
        (None, None) => true,
        _ => false,
    }
}

/// What an announcement amounts to.
pub fn describe_server(record: &ServiceRecord) -> (r: Option<FoundServer>)
    ensures
        is_found_in(*record, r),
{
    let announced = match &record.txt.base_url {
        Some(url) => parse_ip_from_base_url(url.as_str()),
        None => None,
    };
    let chosen = select_preferred_ip(announced, record.addresses.as_slice());
    let ip = match chosen {
        Some(ip) => ip,
        None => return None,
    };
    let server_id = match &record.txt.server_id {
        Some(id) => Some(id.clone()),
        None => clone_text(&record.txt.id),
    };
    let https = match &record.txt.https {
        Some(value) => same_text(value.as_str(), "true") || same_text(value.as_str(), "1"),
        None => false,
    };
    let protocol = if https {
        "https"
    } else {
        "http"
    };
    let address = join3(
        notation_text(&ip).as_str(),
        ":",
        decimal_text(record.port as u64).as_str(),
    );
    let url = join3(protocol, "://", address.as_str());
    let name = trim_end_text(
        trim_end_text(record.fullname.as_str(), ".local.").as_str(),
        "._mass._tcp",
    );
    let key = match &server_id {
        Some(id) => id.clone(),
        None => record.fullname.clone(),
    };
    Some(FoundServer { key, server: DiscoveredServer { name, server_id, address, url, https } })
}

/// What comes in while announcements are awaited.
#[derive(Debug, PartialEq, Eq)]
pub enum DiscoveryEvent {
    /// A server was announced.
    Resolved(ServiceRecord),
    /// Something else was announced.
    Other,
    /// Nothing came for a while.
    Timeout,
    /// Nothing will come any more.
    Disconnected,
}

/// Whether a server is among those found.
pub open spec fn is_known(entries: Seq<FoundServer>, key: Seq<char>) -> bool {
    exists|i: int| 0 <= i < entries.len() && (#[trigger] entries[i]).key@ == key
}

/// Whether no server is among those found twice.
pub open spec fn all_distinct(entries: Seq<FoundServer>) -> bool {
    forall|i: int, j: int|
        0 <= i < j < entries.len() ==> (#[trigger] entries[i]).key@ != (#[trigger] entries[j]).key@
}

/// Whether `after` is what `before` becomes by what an announcement amounts to: a
/// server is added at the end, unless it is there already.
pub open spec fn is_extended_by(
    before: Seq<FoundServer>,
    found: Option<FoundServer>,
    after: Seq<FoundServer>,
) -> bool {
    match found {
        Some(entry) => if is_known(before, entry.key@) {
            after == before
        } else {
            after == before.push(entry)
        },
        None => after == before,
    }
}

/// Whether `after` is what `before` becomes by an event.
pub open spec fn is_next(
    before: Seq<FoundServer>,
    event: DiscoveryEvent,
    after: Seq<FoundServer>,
) -> bool {
    match event {
        DiscoveryEvent::Resolved(record) => exists|found: Option<FoundServer>| #[trigger]
            is_found_in(record, found) && is_extended_by(before, found, after),
        _ => after == before,
    }
}

/// The servers found so far, in the order in which they were first announced.
pub struct Discovery {
    entries: Vec<FoundServer>,
}

impl Discovery {
    /// The servers found so far.
    pub closed spec fn entries(self) -> Seq<FoundServer> {
        self.entries@
    }

    /// No server is found twice.
    #[verifier::type_invariant]
    closed spec fn entries_are_distinct(self) -> bool {
        all_distinct(self.entries@)
    }

    /// No server has been found yet.
    pub fn new() -> (r: Self)
        ensures
            r.entries() == Seq::<FoundServer>::empty(),
    {
        Discovery { entries: Vec::new() }
    }

    /// Whether a server is among those found.
    fn knows(&self, key: &str) -> (r: bool)
        ensures
            r <==> is_known(self.entries(), key@),
    {
        let mut k: usize = 0;
        while k < self.entries.len()
            invariant
                k <= self.entries@.len(),
                forall|i: int| 0 <= i < k ==> (#[trigger] self.entries@[i]).key@ != key@,
            decreases self.entries@.len() - k,
        {
            if same_text(self.entries[k].key.as_str(), key) {
                return true;
            }
            k = k + 1;
        }
        false
    }

    /// Takes note of an event, and says whether to go on waiting for more.
    pub fn observe(&mut self, event: DiscoveryEvent) -> (go_on: bool)
        ensures
            is_next(old(self).entries(), event, final(self).entries()),
            go_on <==> !(event is Disconnected),
    {
        proof {
            use_type_invariant(&*self);
        }
        match event {
            DiscoveryEvent::Resolved(record) => {
                let found = describe_server(&record);
                let ghost what = found;
                assert(is_found_in(record, what));
                if let Some(entry) = found {
                    if !self.knows(entry.key.as_str()) {
                        let mut entries: Vec<FoundServer> = Vec::new();
                        std::mem::swap(&mut entries, &mut self.entries);
                        let ghost before = entries@;
                        entries.push(entry);
                        assert(all_distinct(entries@)) by {
                            assert forall|i: int, j: int|
                                0 <= i < j < entries@.len() implies (
                            #[trigger] entries@[i]).key@ != (#[trigger] entries@[j]).key@ by {
                                assert(entries@[i] == before[i]);
                            }
                        }
                        self.entries = entries;
                    }
                }
                assert(is_extended_by(old(self).entries(), what, self.entries()));
                true
            },
            DiscoveryEvent::Other => true,
            DiscoveryEvent::Timeout => true,
            DiscoveryEvent::Disconnected => false,
        }
    }

    /// The servers found, in the order in which they were first announced.
    pub fn into_servers(self) -> (r: Vec<DiscoveredServer>)
        ensures
            all_distinct(self.entries()),
            r@ == self.entries().map_values(|entry: FoundServer| entry.server),
    {
        proof {
            use_type_invariant(&self);
        }
        let ghost all = self.entries@;
        let mut rest = self.entries;
        let mut servers: Vec<DiscoveredServer> = Vec::new();
        while rest.len() > 0
            invariant
                servers@.len() + rest@.len() == all.len(),
                rest@ == all.skip(servers@.len() as int),
                forall|i: int| 0 <= i < servers@.len() ==> #[trigger] servers@[i] == all[i].server,
            decreases rest@.len(),
        {
            let entry = rest.remove(0);
            assert(entry == all[servers@.len() as int]);
            assert(rest@ =~= all.skip(servers@.len() as int + 1));
            servers.push(entry.server);
        }
        assert(servers@ =~= all.map_values(|entry: FoundServer| entry.server));
        servers
    }
}

/// Whether there is time left to wait for announcements.
pub fn is_time_left(elapsed_nanos: u128, timeout_secs: u64) -> (r: bool)
    ensures
        r <==> elapsed_nanos < timeout_secs * 1_000_000_000,
{
    elapsed_nanos < timeout_secs as u128 * 1_000_000_000
}

/// Why no search could be made.
#[derive(Debug, PartialEq, Eq)]
pub enum DiscoveryFailure {
    /// The service that does the search could not be started.
    Daemon(String),
    /// The search could not be started.
    Browse(String),
    /// The result cannot be reached.
    Lock,
}

/// The words for a failure.
pub open spec fn failure_words(failure: DiscoveryFailure) -> Seq<char> {
    match failure {
        DiscoveryFailure::Daemon(detail) => "Failed to create mDNS daemon: "@ + detail@,
        DiscoveryFailure::Browse(detail) => "Failed to browse mDNS: "@ + detail@,
        DiscoveryFailure::Lock => "Failed to lock servers"@,
    }
}

/// The words for a failure.
pub fn failure_message(failure: &DiscoveryFailure) -> (r: String)
    ensures
        r@ == failure_words(*failure),
{
    match failure {
        DiscoveryFailure::Daemon(detail) => join(
            "Failed to create mDNS daemon: ",
            detail.as_str(),
        ),
        DiscoveryFailure::Browse(detail) => join("Failed to browse mDNS: ", detail.as_str()),
        DiscoveryFailure::Lock => "Failed to lock servers".to_owned(),
    }
}

/// The URL of a server at an IPv4 address names that address: it can be read back.
pub proof fn url_names_the_address(
    record: ServiceRecord,
    a: u8,
    b: u8,
    c: u8,
    d: u8,
    server: DiscoveredServer,
)
    requires
        is_server_at(record, IpAddress::V4(a, b, c, d), server),
    ensures
        address::base_url_ip(server.url@) == Some(IpAddress::V4(a, b, c, d)),
{
    reveal_strlit("https");
    reveal_strlit("http");
    reveal_strlit("://");
    reveal_strlit(":");
    reveal_strlit("https://");
    reveal_strlit("http://");
    assert("https"@ + "://"@ =~= "https://"@);
    assert("http"@ + "://"@ =~= "http://"@);
    let scheme = if server.https {
        "https://"@
    } else {
        "http://"@
    };
    assert(":"@ =~= seq![':']);
    assert(server.url@ =~= scheme + address::dotted(a, b, c, d) + seq![':'] + text::decimal(
        record.port as nat,
    ));
    address::address_in_a_base_url_is_read_back(server.https, a, b, c, d, record.port);
}

/// A friendly name no longer ends with the service type, and the full name
/// starts with it.
pub proof fn friendly_name_is_short(fullname: Seq<char>)
    ensures
        !"._mass._tcp"@.is_suffix_of(friendly_name(fullname)),
        friendly_name(fullname).is_prefix_of(fullname),
{
    reveal_strlit(".local.");
    reveal_strlit("._mass._tcp");
    let once = text::trimmed_end(fullname, ".local."@);
    text::trimmed_end_is_trimmed(fullname, ".local."@);
    text::trimmed_end_is_trimmed(once, "._mass._tcp"@);
    let name = friendly_name(fullname);
    assert(once.subrange(0, name.len() as int) =~= fullname.subrange(0, name.len() as int));
}

/// What was found stays as it was found, and stays free of duplicates; a server
/// that is announced with an address is found; and announcing a server again
/// changes nothing.
pub proof fn discovery_only_adds(
    before: Seq<FoundServer>,
    event: DiscoveryEvent,
    after: Seq<FoundServer>,
)
    requires
        all_distinct(before),
        is_next(before, event, after),
    ensures
        before.is_prefix_of(after),
        after.len() <= before.len() + 1,
        all_distinct(after),
        event matches DiscoveryEvent::Resolved(record) ==> server_ip(record) is Some ==> is_known(
            after,
            server_key(record),
        ),
        event matches DiscoveryEvent::Resolved(record) ==> server_ip(record) is Some && is_known(
            before,
            server_key(record),
        ) ==> after == before,
        event matches DiscoveryEvent::Resolved(record) ==> server_ip(record) is None ==> after
            == before,
{
    assert(before.subrange(0, before.len() as int) =~= before);
    if let DiscoveryEvent::Resolved(record) = event {
        let found = choose|found: Option<FoundServer>| #[trigger]
            is_found_in(record, found) && is_extended_by(before, found, after);
        if let Some(entry) = found {
            if !is_known(before, entry.key@) {
                assert(after.subrange(0, before.len() as int) =~= before);
                assert(after[before.len() as int] == entry);
                assert forall|i: int, j: int| 0 <= i < j < after.len() implies (
                #[trigger] after[i]).key@ != (#[trigger] after[j]).key@ by {
                    assert(after[i] == before[i]);
                    if j < before.len() {
                        assert(after[j] == before[j]);
                    }
                }
            }
        }
    }
}

/// Whether `states` are what is found in the course of `events`, from nothing on.
pub open spec fn is_course(events: Seq<DiscoveryEvent>, states: Seq<Seq<FoundServer>>) -> bool {
    &&& states.len() == events.len() + 1
    &&& states[0].len() == 0
    &&& forall|i: int|
        #![trigger events[i]]
        0 <= i < events.len() ==> is_next(states[i], events[i], states[i + 1])
}

/// Whether the server of an entry is first announced by the event at place `i`.
pub open spec fn is_first_announcement(
    events: Seq<DiscoveryEvent>,
    i: int,
    entry: FoundServer,
) -> bool {
    &&& 0 <= i < events.len()
    &&& events[i] matches DiscoveryEvent::Resolved(record) && is_found_in(record, Some(entry))
    &&& forall|j: int|
        0 <= j < i ==> (#[trigger] events[j] matches DiscoveryEvent::Resolved(earlier) ==> server_ip(
            earlier,
        ) is Some ==> server_key(earlier) != entry.key@)
}

/// Whether the server of an entry is first announced by one of the first `n` events.
pub open spec fn is_announced_among(
    events: Seq<DiscoveryEvent>,
    n: int,
    entry: FoundServer,
) -> bool {
    exists|i: int| i < n && #[trigger] is_first_announcement(events, i, entry)
}

/// In every course of events each server that is announced with an address is
/// found once, as its first announcement describes it, and nothing else is found.
pub proof fn each_server_is_found_as_first_announced(
    events: Seq<DiscoveryEvent>,
    states: Seq<Seq<FoundServer>>,
    n: int,
)
    requires
        is_course(events, states),
        0 <= n <= events.len(),
    ensures
        all_distinct(states[n]),
        forall|k: int|
            0 <= k < states[n].len() ==> is_announced_among(events, n, #[trigger] states[n][k]),
        forall|i: int|
            0 <= i < n ==> (#[trigger] events[i] matches DiscoveryEvent::Resolved(record)
                ==> server_ip(record) is Some ==> is_known(states[n], server_key(record))),
    decreases n,
{
    if n > 0 {
        each_server_is_found_as_first_announced(events, states, n - 1);
        let (before, after, event) = (states[n - 1], states[n], events[n - 1]);
        assert(is_next(before, event, after));
        discovery_only_adds(before, event, after);
        assert forall|k: int| 0 <= k < after.len() implies is_announced_among(
            events,
            n,
            #[trigger] after[k],
        ) by {
            if k < before.len() {
                assert(after.subrange(0, before.len() as int)[k] == after[k]);
                assert(after[k] == before[k]);
                assert(is_announced_among(events, n - 1, before[k]));
                let i = choose|i: int|
                    i < n - 1 && #[trigger] is_first_announcement(events, i, before[k]);
                assert(is_first_announcement(events, i, after[k]));
            } else {
                assert(is_first_announcement(events, n - 1, after[k]));
            }
        }
        assert forall|i: int| 0 <= i < n implies (
        #[trigger] events[i] matches DiscoveryEvent::Resolved(record) ==> server_ip(record) is Some
            ==> is_known(after, server_key(record))) by {
            if i < n - 1 {
                if let DiscoveryEvent::Resolved(record) = events[i] {
                    if server_ip(record) is Some {
                        assert(is_known(before, server_key(record)));
                        let k = choose|k: int|
                            0 <= k < before.len() && (#[trigger] before[k]).key@ == server_key(
                                record,
                            );
                        assert(after.subrange(0, before.len() as int)[k] == after[k]);
                        assert(after[k].key@ == server_key(record));
                    }
                }
            }
        }
    }
}

/// The address of a server that is found, read back: where its last colon stands
/// is given. Before it stands the notation of the address that the server is
/// contacted at, and behind it nothing but digits, which are the announced port.
/// The URL is that address behind the scheme.
pub proof fn found_address_reads_back(
    record: ServiceRecord,
    found: Option<FoundServer>,
    k: int,
) -> (colon: int)
    requires
        call_ensures(describe_server, (&record,), found),
    ensures
        found is None <==> record.addresses@.len() == 0 && (record.txt.base_url is None
            || address::base_url_ip(record.txt.base_url->Some_0@) is None),
        found matches Some(entry) ==> {
            let words = entry.server.address@;
            let announced = if record.txt.base_url is Some {
                address::base_url_ip(record.txt.base_url->Some_0@)
            } else {
                None
            };
            &&& 0 <= colon < words.len() - 1 && words[colon] == ':'
            &&& forall|i: int|
                colon < i < words.len() ==> '0' as int <= (#[trigger] words[i]) as int <= '9' as int
            &&& text::number_in(words.skip(colon + 1)) == record.port
            &&& announced matches Some(ip) ==> words.take(colon) == address::notation(ip)
            &&& announced is None && 0 <= k < record.addresses@.len() && record.addresses@[k] is V4
                && (forall|i: int| 0 <= i < k ==> #[trigger] record.addresses@[i] is V6)
                ==> words.take(colon) == address::notation(record.addresses@[k])
            &&& announced is None && (forall|i: int|
                0 <= i < record.addresses@.len() ==> #[trigger] record.addresses@[i] is V6)
                ==> words.take(colon) == address::notation(record.addresses@[0])
            &&& entry.server.https ==> entry.server.url@ == "https://"@ + words
            &&& !entry.server.https ==> entry.server.url@ == "http://"@ + words
        },
{
    let announced = match record.txt.base_url {
        Some(url) => address::base_url_ip(url@),
        None => None,
    };
    address::preferred_by_place(announced, record.addresses@, k);
    address::preferred_ip_is_a_known_one(announced, record.addresses@);
    if let Some(entry) = found {
        let ip = server_ip(record)->Some_0;
        let words = entry.server.address@;
        let (host, port) = (address::notation(ip), text::decimal(record.port as nat));
        text::decimal_reads_back(record.port as nat);
        reveal_strlit("https");
        reveal_strlit("http");
        reveal_strlit("://");
        reveal_strlit(":");
        reveal_strlit("https://");
        reveal_strlit("http://");
        assert("https"@ + "://"@ =~= "https://"@);
        assert("http"@ + "://"@ =~= "http://"@);
        let colon = host.len() as int;
        assert(words[colon] == ':');
        assert(words.skip(colon + 1) =~= port);
        assert(words.take(colon) =~= host);
        assert forall|i: int| colon < i < words.len() implies '0' as int <= (
        #[trigger] words[i]) as int <= '9' as int by {
            assert(words[i] == port[i - colon - 1]);
        }
        colon
    } else {
        0
    }
}

/// Announcements that differ only in their port lead to different addresses and
/// different URLs.
pub proof fn ports_tell_servers_apart(
    record: ServiceRecord,
    other: ServiceRecord,
    found: FoundServer,
    other_found: FoundServer,
)
    requires
        call_ensures(describe_server, (&record,), Some(found)),
        call_ensures(describe_server, (&other,), Some(other_found)),
        record.txt == other.txt,
        record.addresses == other.addresses,
        record.port != other.port,
    ensures
        found.server.address@ != other_found.server.address@,
        found.server.url@ != other_found.server.url@,
{
    let a = found_address_reads_back(record, Some(found), 0);
    let b = found_address_reads_back(other, Some(other_found), 0);
    let (x, y) = (found.server.address@, other_found.server.address@);
    if x == y {
        if a < b {
            assert('0' as int <= x[b] as int);
        } else if b < a {
            assert('0' as int <= y[a] as int);
        }
        assert(x.skip(a + 1) == y.skip(b + 1));
    }
    if found.server.url@ == other_found.server.url@ {
        reveal_strlit("https://");
        reveal_strlit("http://");
        assert(found.server.https == other_found.server.https);
        let scheme = if found.server.https {
            "https://"@
        } else {
            "http://"@
        };
        assert((scheme + x).skip(scheme.len() as int) =~= x);
        assert((scheme + y).skip(scheme.len() as int) =~= y);
    }
}

/// What else a found server is known by. It has the ID that is announced as
/// `server_id`, else the one announced as `id`, and goes by that ID, or by its full
/// name where none is announced. HTTPS is available exactly where it is announced
/// with `true` or `1`. Its name is the full name, cut off at the end: by copies of
/// the service type behind it, and by copies of the domain behind those.
pub proof fn found_server_is_known_by_its_id(record: ServiceRecord, entry: FoundServer)
    requires
        call_ensures(describe_server, (&record,), Some(entry)),
    ensures
        record.txt.server_id is Some ==> entry.key@ == record.txt.server_id->Some_0@ && (
        entry.server.server_id matches Some(id) && id@ == record.txt.server_id->Some_0@),
        record.txt.server_id is None && record.txt.id is Some ==> entry.key@
            == record.txt.id->Some_0@ && (entry.server.server_id matches Some(id) && id@
            == record.txt.id->Some_0@),
        record.txt.server_id is None && record.txt.id is None ==> entry.key@ == record.fullname@
            && entry.server.server_id is None,
        entry.server.https <==> record.txt.https is Some && (record.txt.https->Some_0@ == "true"@
            || record.txt.https->Some_0@ == "1"@),
        exists|services: nat, domains: nat|
            record.fullname@ == entry.server.name@ + #[trigger] text::repeated(
                "._mass._tcp"@,
                services,
            ) + #[trigger] text::repeated(".local."@, domains),
        !"._mass._tcp"@.is_suffix_of(entry.server.name@),
{
    reveal_strlit(".local.");
    reveal_strlit("._mass._tcp");
    let full = record.fullname@;
    let once = text::trimmed_end(full, ".local."@);
    friendly_name_is_short(full);
    text::copies_were_trimmed(full, ".local."@);
    text::copies_were_trimmed(once, "._mass._tcp"@);
    let domains = choose|n: nat| full == once + #[trigger] text::repeated(".local."@, n);
    let services = choose|n: nat|
        once == entry.server.name@ + #[trigger] text::repeated("._mass._tcp"@, n);
    assert(full == entry.server.name@ + text::repeated("._mass._tcp"@, services) + text::repeated(
        ".local."@,
        domains,
    ));
}

/// A server that is announced under the service type is known by what stands
/// before it.
pub proof fn name_stands_before_the_service_type(
    label: Seq<char>,
    record: ServiceRecord,
    entry: FoundServer,
)
    requires
        call_ensures(describe_server, (&record,), Some(entry)),
        record.fullname@ == label + "._mass._tcp.local."@,
        !"._mass._tcp"@.is_suffix_of(label),
    ensures
        entry.server.name@ == label,
{
    reveal_strlit("._mass._tcp.local.");
    reveal_strlit("._mass._tcp");
    reveal_strlit(".local.");
    let once = label + "._mass._tcp"@;
    assert("._mass._tcp.local."@ =~= "._mass._tcp"@ + ".local."@);
    assert(record.fullname@ =~= once + ".local."@);
    text::trimming_takes_off_the_suffix(once, ".local."@);
    assert(!".local."@.is_suffix_of(once)) by {
        assert(once[once.len() - 1] == 'p');
        let tail = once.subrange(once.len() - 7, once.len() as int);
        assert(tail[6] == once[once.len() - 1]);
        assert(".local."@[6] == '.');
    }
    text::trimming_takes_off_the_suffix(label, "._mass._tcp"@);
}

/// What is read from a TXT record is what the record says for each key, and
/// nothing where it says nothing.
pub proof fn txt_is_read_key_by_key(properties: mdns_sd::TxtProperties, r: ServiceTxt)
    requires
        call_ensures(read_txt, (&properties,), r),
    ensures
        ({
            let said = txt_values(properties);
            &&& r.server_id is Some <==> said.dom().contains("server_id"@)
            &&& r.server_id matches Some(v) ==> v@ == said["server_id"@]
            &&& r.id is Some <==> said.dom().contains("id"@)
            &&& r.id matches Some(v) ==> v@ == said["id"@]
            &&& r.base_url is Some <==> said.dom().contains("base_url"@)
            &&& r.base_url matches Some(v) ==> v@ == said["base_url"@]
            &&& r.https is Some <==> said.dom().contains("https"@)
            &&& r.https matches Some(v) ==> v@ == said["https"@]
        }),
{
}

/// What an event does to what was found: a server that is announced with an
/// address and is not among those found is put at the end, as its announcement
/// describes it; nothing else changes anything.
pub proof fn only_new_servers_are_added(
    before: Seq<FoundServer>,
    event: DiscoveryEvent,
    after: Seq<FoundServer>,
    k: int,
)
    requires
        is_next(before, event, after),
    ensures
        !(event is Resolved) ==> after == before,
        event matches DiscoveryEvent::Resolved(record) ==> {
            let key = if record.txt.server_id is Some {
                record.txt.server_id->Some_0@
            } else if record.txt.id is Some {
                record.txt.id->Some_0@
            } else {
                record.fullname@
            };
            let reachable = record.addresses@.len() > 0 || (record.txt.base_url is Some
                && address::base_url_ip(record.txt.base_url->Some_0@) is Some);
            let known = exists|i: int| 0 <= i < before.len() && (#[trigger] before[i]).key@ == key;
            &&& !reachable || known ==> after == before
            &&& reachable && !known ==> {
                &&& after.len() == before.len() + 1
                &&& after.last().key@ == key
                &&& is_found_in(record, Some(after.last()))
                &&& 0 <= k < before.len() ==> after[k] == before[k]
            }
        },
{
    if let DiscoveryEvent::Resolved(record) = event {
        let announced = match record.txt.base_url {
            Some(url) => address::base_url_ip(url@),
            None => None,
        };
        address::preferred_ip_is_a_known_one(announced, record.addresses@);
        let found = choose|found: Option<FoundServer>| #[trigger]
            is_found_in(record, found) && is_extended_by(before, found, after);
        if let Some(entry) = found {
            assert(is_known(before, entry.key@) <==> exists|i: int|
                0 <= i < before.len() && (#[trigger] before[i]).key@ == entry.key@);
        }
    }
}

/// At first nothing is found; in the end the servers are given out as they were
/// found, in the same order, no two of them with the same key.
pub proof fn found_servers_are_given_out(
    fresh: Discovery,
    discovery: Discovery,
    servers: Vec<DiscoveredServer>,
    k: int,
    j: int,
)
    requires
        call_ensures(Discovery::new, (), fresh),
        call_ensures(Discovery::into_servers, (discovery,), servers),
    ensures
        fresh.entries().len() == 0,
        servers@.len() == discovery.entries().len(),
        0 <= k < servers@.len() ==> servers@[k] == discovery.entries()[k].server,
        0 <= k < j < servers@.len() ==> discovery.entries()[k].key@ != discovery.entries()[j].key@,
{
}

/// There is time left exactly until the given number of seconds has passed.
pub proof fn time_is_left_until_the_timeout(elapsed_nanos: u128, timeout_secs: u64, r: bool)
    requires
        call_ensures(is_time_left, (elapsed_nanos, timeout_secs), r),
    ensures
        r <==> elapsed_nanos < 1_000_000_000 * timeout_secs,
{
}

/// Each failure has its own words, and those of the service are kept in them.
pub proof fn failures_are_put_into_words(
    detail: String,
    daemon: String,
    browse: String,
    lock: String,
)
    requires
        call_ensures(failure_message, (&DiscoveryFailure::Daemon(detail),), daemon),
        call_ensures(failure_message, (&DiscoveryFailure::Browse(detail),), browse),
        call_ensures(failure_message, (&DiscoveryFailure::Lock,), lock),
    ensures
        daemon@ == "Failed to create mDNS daemon: "@ + detail@,
        browse@ == "Failed to browse mDNS: "@ + detail@,
        lock@ == "Failed to lock servers"@,
{
}

/// Servers are looked for under one service type, a tenth of a second at a time.
pub proof fn servers_share_one_service_type()
    ensures
        MA_SERVICE_TYPE@ == "_mass._tcp.local."@,
        RECEIVE_TIMEOUT_MS == 100,
{
}

/// Waiting for announcements goes on until there can be none any more, and what
/// was found follows from the event.
pub proof fn waiting_ends_when_disconnected(
    discovery: &mut Discovery,
    event: DiscoveryEvent,
    go_on: bool,
)
    requires
        call_ensures(Discovery::observe, (discovery, event), go_on),
    ensures
        go_on <==> !(event is Disconnected),
        is_next(old(discovery).entries(), event, final(discovery).entries()),
{
}

} // verus!

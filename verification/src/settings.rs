//! User settings: defaults, SPV server ordering, RPC credential generation
//! and the merge applied when the UI saves settings.
use vstd::prelude::*;
use vstd::multiset::Multiset;
use rand::Rng;

use crate::text::{has_substring, push_char, str_contains, to_owned, views};

verus! {

broadcast use vstd::string::group_string_axioms;

/// The stable published extension ID, used whenever no other ID is configured.
pub const EXTENSION_ID: &'static str = "mphijnbejfkmcahhjlchcghmjegoefkf";

/// The first default SPV server.
pub const PRIMARY_SPV_SERVER: &'static str = "s1.lbry.network:50001";

/// The second default SPV server.
pub const SECONDARY_SPV_SERVER: &'static str = "a-hub1.odysee.com:50001";

/// Characters that generated RPC credentials are drawn from.
pub const CREDENTIAL_CHARSET: [char; 62] = [
    'A', 'B', 'C', 'D', 'E', 'F', 'G', 'H', 'I', 'J', 'K', 'L', 'M', 'N', 'O', 'P', 'Q', 'R', 'S',
    'T', 'U', 'V', 'W', 'X', 'Y', 'Z', 'a', 'b', 'c', 'd', 'e', 'f', 'g', 'h', 'i', 'j', 'k', 'l',
    'm', 'n', 'o', 'p', 'q', 'r', 's', 't', 'u', 'v', 'w', 'x', 'y', 'z', '0', '1', '2', '3', '4',
    '5', '6', '7', '8', '9',
];

/// Length of a generated RPC user name.
pub const RPC_USER_LEN: usize = 16;

/// Length of a generated RPC password.
pub const RPC_PASS_LEN: usize = 32;

/// Persisted companion settings (the transfer statistics are kept beside
/// them by the application, which stores them as floating-point totals).
#[derive(Debug, Clone)]
pub struct AppSettings {
    pub auto_start_daemon: bool,
    pub auto_launch_os: bool,
    pub allow_revivel_extension: bool,
    /// Extension ID used when forwarding lbry:// URLs; defaults to the published ID.
    pub revivel_extension_id: String,
    /// SPV servers handed to lbrynet.
    pub spv_servers: Vec<String>,
    /// RPC credentials; generated randomly by the companion.
    pub rpcuser: String,
    pub rpcpass: String,
}

/// The settings as plain values.
pub struct SettingsView {
    pub auto_start_daemon: bool,
    pub auto_launch_os: bool,
    pub allow_revivel_extension: bool,
    pub revivel_extension_id: Seq<char>,
    pub spv_servers: Seq<Seq<char>>,
    pub rpcuser: Seq<char>,
    pub rpcpass: Seq<char>,
}

impl View for AppSettings {
    type V = SettingsView;

    open spec fn view(&self) -> SettingsView {
        SettingsView {
            auto_start_daemon: self.auto_start_daemon,
            auto_launch_os: self.auto_launch_os,
            allow_revivel_extension: self.allow_revivel_extension,
            revivel_extension_id: self.revivel_extension_id@,
            spv_servers: views(self.spv_servers@),
            rpcuser: self.rpcuser@,
            rpcpass: self.rpcpass@,
        }
    }
}

/// The default SPV server list.
pub open spec fn default_servers_spec() -> Seq<Seq<char>> {
    seq![PRIMARY_SPV_SERVER@, SECONDARY_SPV_SERVER@]
}

/// The settings a fresh installation starts from.
pub open spec fn default_settings_spec() -> SettingsView {
    SettingsView {
        auto_start_daemon: true,
        auto_launch_os: false,
        allow_revivel_extension: true,
        revivel_extension_id: EXTENSION_ID@,
        spv_servers: default_servers_spec(),
        rpcuser: seq![],
        rpcpass: seq![],
    }
}

/// Default extension ID: the published ReviveL extension.
pub fn default_extension_id() -> (r: String)
    ensures
        r@ == EXTENSION_ID@,
{
    to_owned(EXTENSION_ID)
}

/// Default SPV servers, primary first.
pub fn default_spv_servers() -> (r: Vec<String>)
    ensures
        views(r@) == default_servers_spec(),
{
    let mut v: Vec<String> = Vec::new();
    v.push(to_owned(PRIMARY_SPV_SERVER));
    v.push(to_owned(SECONDARY_SPV_SERVER));
    assert(views(v@) =~= default_servers_spec());
    v
}

/// Default for flags that are on unless switched off.
pub fn default_true() -> (b: bool)
    ensures
        b,
{
    true
}

impl Default for AppSettings {
    fn default() -> (s: Self)
        ensures
            s@ == default_settings_spec(),
    {
        AppSettings {
            auto_start_daemon: true,
            auto_launch_os: false,
            allow_revivel_extension: default_true(),
            revivel_extension_id: default_extension_id(),
            spv_servers: default_spv_servers(),
            rpcuser: String::new(),
            rpcpass: String::new(),
        }
    }
}

/// A copy of a vector of strings.
pub fn clone_strings(v: &Vec<String>) -> (r: Vec<String>)
    ensures
        views(r@) == views(v@),
{
    let mut r: Vec<String> = Vec::new();
    let n = v.len();
    let mut i: usize = 0;
    while i < n
        invariant
            n == v.len(),
            i <= n,
            views(r@) == views(v@.take(i as int)),
        decreases n - i,
    {
        let s = v[i].clone();
        r.push(s);
        assert(views(v@.take(i + 1)) =~= views(v@.take(i as int)).push(v@[i as int]@));
        assert(views(r@) =~= views(v@.take(i as int)).push(v@[i as int]@));
        i = i + 1;
    }
    assert(v@.take(n as int) == v@);
    r
}

impl AppSettings {
    /// A copy of these settings.
    pub fn duplicate(&self) -> (r: AppSettings)
        ensures
            r@ == self@,
    {
        AppSettings {
            auto_start_daemon: self.auto_start_daemon,
            auto_launch_os: self.auto_launch_os,
            allow_revivel_extension: self.allow_revivel_extension,
            revivel_extension_id: self.revivel_extension_id.clone(),
            spv_servers: clone_strings(&self.spv_servers),
            rpcuser: self.rpcuser.clone(),
            rpcpass: self.rpcpass.clone(),
        }
    }
}

// ---------------------------------------------------------------------------
// SPV server ordering
// ---------------------------------------------------------------------------

/// A server counts as primary when it names the s1 host or its IP address.
pub open spec fn is_primary_server(s: Seq<char>) -> bool {
    has_substring(s, "88.99.63.52"@) || has_substring(s, "s1.lbry.network"@)
}

/// The servers of `s` whose primariness is `primary`, in the order they are given.
pub open spec fn servers_where(s: Seq<Seq<char>>, primary: bool) -> Seq<Seq<char>>
    decreases s.len(),
{
    if s.len() == 0 {
        seq![]
    } else {
        let r = servers_where(s.drop_last(), primary);
        if is_primary_server(s.last()) == primary {
            r.push(s.last())
        } else {
            r
        }
    }
}

/// Stable ordering that puts primary servers first (`sort_by_key` with key 0/1).
pub open spec fn prioritized(s: Seq<Seq<char>>) -> Seq<Seq<char>> {
    servers_where(s, true) + servers_where(s, false)
}

/// Whether `s` names a primary SPV server.
pub fn is_primary_server_exec(s: &str) -> (b: bool)
    ensures
        b == is_primary_server(s@),
{
    str_contains(s, "88.99.63.52") || str_contains(s, "s1.lbry.network")
}

/// Reorders `servers` so that primary servers come first, keeping the
/// relative order inside each group.
pub fn prioritize_servers(servers: &Vec<String>) -> (r: Vec<String>)
    ensures
        views(r@) == prioritized(views(servers@)),
{
    let n = servers.len();
    let mut first: Vec<String> = Vec::new();
    let mut rest: Vec<String> = Vec::new();
    let mut i: usize = 0;
    while i < n
        invariant
            n == servers.len(),
            i <= n,
            views(first@) == servers_where(views(servers@.take(i as int)), true),
            views(rest@) == servers_where(views(servers@.take(i as int)), false),
        decreases n - i,
    {
        let s = servers[i].clone();
        let primary = is_primary_server_exec(s.as_str());
        let ghost pre = views(servers@.take(i as int));
        let ghost post = views(servers@.take(i + 1));
        assert(post =~= pre.push(servers@[i as int]@));
        assert(post.drop_last() =~= pre);
        if primary {
            first.push(s);
            assert(views(first@) =~= servers_where(pre, true).push(servers@[i as int]@));
        } else {
            rest.push(s);
            assert(views(rest@) =~= servers_where(pre, false).push(servers@[i as int]@));
        }
        i = i + 1;
    }
    assert(servers@.take(n as int) == servers@);
    let mut r = first;
    let ghost a = views(r@);
    let m = rest.len();
    let mut j: usize = 0;
    while j < m
        invariant
            m == rest.len(),
            j <= m,
            views(r@) == a + views(rest@.take(j as int)),
        decreases m - j,
    {
        let s = rest[j].clone();
        let ghost before = r@;
        r.push(s);
        assert(views(r@) =~= views(before).push(rest@[j as int]@));
        assert(views(rest@.take(j + 1)) =~= views(rest@.take(j as int)).push(rest@[j as int]@));
        assert(views(r@) =~= a + views(rest@.take(j + 1)));
        j = j + 1;
    }
    assert(rest@.take(m as int) == rest@);
    r
}

/// The two groups together hold exactly the servers of `s`.
proof fn lemma_servers_where_split(s: Seq<Seq<char>>)
    ensures
        servers_where(s, true).to_multiset().add(servers_where(s, false).to_multiset())
            =~= s.to_multiset(),
    decreases s.len(),
{
    broadcast use vstd::seq_lib::group_to_multiset_ensures;
    broadcast use vstd::multiset::group_multiset_axioms;

    if s.len() > 0 {
        let t = s.drop_last();
        lemma_servers_where_split(t);
        assert(t.push(s.last()) =~= s);
    } else {
        assert(servers_where(s, true).to_multiset() =~= Multiset::empty());
        assert(servers_where(s, false).to_multiset() =~= Multiset::empty());
        assert(s.to_multiset() =~= Multiset::empty());
    }
}

/// Every server in the group selected by `primary` has that primariness.
proof fn lemma_servers_where_members(s: Seq<Seq<char>>, primary: bool)
    ensures
        forall|i: int|
            0 <= i < servers_where(s, primary).len() ==> is_primary_server(
                #[trigger] servers_where(s, primary)[i],
            ) == primary,
    decreases s.len(),
{
    if s.len() > 0 {
        let t = s.drop_last();
        lemma_servers_where_members(t, primary);
        let r = servers_where(t, primary);
        if is_primary_server(s.last()) == primary {
            assert forall|i: int|
                0 <= i < servers_where(s, primary).len() implies is_primary_server(
                #[trigger] servers_where(s, primary)[i],
            ) == primary by {
                if i < r.len() {
                    assert(servers_where(s, primary)[i] == r[i]);
                }
            }
        }
    }
}

/// Law: putting primary servers first only reorders the list (nothing is
/// added or lost), every primary server precedes every other server, and the
/// order of already-prioritized lists is unchanged.
pub proof fn law_prioritize_is_stable_partition(s: Seq<Seq<char>>)
    ensures
        prioritized(s).to_multiset() == s.to_multiset(),
        prioritized(s).len() == s.len(),
        forall|i: int, j: int|
            0 <= i < j < s.len() && !is_primary_server(#[trigger] prioritized(s)[i])
                ==> !is_primary_server(#[trigger] prioritized(s)[j]),
{
    broadcast use vstd::seq_lib::group_to_multiset_ensures;

    lemma_servers_where_split(s);
    vstd::seq_lib::lemma_multiset_commutative(servers_where(s, true), servers_where(s, false));
    lemma_servers_where_members(s, true);
    lemma_servers_where_members(s, false);
    let a = servers_where(s, true);
    let b = servers_where(s, false);
    assert(prioritized(s).to_multiset().len() == s.to_multiset().len());
    assert forall|i: int, j: int|
        0 <= i < j < s.len() && !is_primary_server(#[trigger] prioritized(s)[i])
            implies !is_primary_server(#[trigger] prioritized(s)[j]) by {
        if i < a.len() {
            assert(prioritized(s)[i] == a[i]);
        }
        assert(prioritized(s)[j] == b[j - a.len()]);
    }
}

/// `s` rotated left by `k` places: after `k` SPV failovers the server list
/// starts at the `k`-th server (counted modulo the list's length).
pub open spec fn rotated(s: Seq<Seq<char>>, k: nat) -> Seq<Seq<char>> {
    if s.len() == 0 {
        s
    } else {
        s.skip((k % s.len()) as int) + s.take((k % s.len()) as int)
    }
}

/// Rotates the server list left by `k` places.
pub fn rotate_servers(servers: &Vec<String>, k: usize) -> (r: Vec<String>)
    ensures
        views(r@) == rotated(views(servers@), k as nat),
{
    let n = servers.len();
    if n == 0 {
        let r: Vec<String> = Vec::new();
        assert(views(r@) =~= views(servers@));
        return r;
    }
    let start = k % n;
    let mut r: Vec<String> = Vec::new();
    let mut i: usize = 0;
    let ghost v = views(servers@);
    while i < n
        invariant
            n == servers.len(),
            n > 0,
            start == k % n,
            v == views(servers@),
            i <= n,
            views(r@) == rotated(v, k as nat).take(i as int),
        decreases n - i,
    {
        let idx: usize = if i < n - start {
            start + i
        } else {
            i - (n - start)
        };
        let s = servers[idx].clone();
        let ghost before = views(r@);
        r.push(s);
        assert(rotated(v, k as nat)[i as int] == v[idx as int]);
        assert(views(r@) =~= before.push(v[idx as int]));
        assert(views(r@) =~= rotated(v, k as nat).take(i + 1));
        i = i + 1;
    }
    assert(rotated(v, k as nat).take(n as int) =~= rotated(v, k as nat));
    r
}

/// Law: rotating the server list only reorders it, starts it at the `k`-th
/// server, and rotating by nothing leaves it as it is.
pub proof fn law_rotation(s: Seq<Seq<char>>, k: nat)
    ensures
        rotated(s, k).to_multiset() == s.to_multiset(),
        rotated(s, k).len() == s.len(),
        s.len() > 0 ==> rotated(s, k)[0] == s[(k % s.len()) as int],
        rotated(s, 0) == s,
{
    broadcast use vstd::seq_lib::group_to_multiset_ensures;

    if s.len() > 0 {
        let r = (k % s.len()) as int;
        vstd::seq_lib::lemma_multiset_commutative(s.skip(r), s.take(r));
        vstd::seq_lib::lemma_multiset_commutative(s.take(r), s.skip(r));
        assert(s.take(r) + s.skip(r) =~= s);
        assert(s.skip(0) + s.take(0) =~= s);
        assert(s.skip(r).to_multiset().add(s.take(r).to_multiset())
            =~= s.take(r).to_multiset().add(s.skip(r).to_multiset()));
    }
}

// ---------------------------------------------------------------------------
// Settings merge and normalisation
// ---------------------------------------------------------------------------

/// What saving settings from the UI keeps: the five user-editable fields come
/// from `incoming`, the generated credentials from `current`.
pub open spec fn merged_settings(current: SettingsView, incoming: SettingsView) -> SettingsView {
    SettingsView {
        auto_start_daemon: incoming.auto_start_daemon,
        auto_launch_os: incoming.auto_launch_os,
        allow_revivel_extension: incoming.allow_revivel_extension,
        revivel_extension_id: incoming.revivel_extension_id,
        spv_servers: incoming.spv_servers,
        rpcuser: current.rpcuser,
        rpcpass: current.rpcpass,
    }
}

/// Applies settings saved from the UI to the current settings.
pub fn merge_saved_settings(current: &AppSettings, incoming: AppSettings) -> (r: AppSettings)
    ensures
        r@ == merged_settings(current@, incoming@),
        r@.auto_start_daemon == incoming@.auto_start_daemon,
        r@.auto_launch_os == incoming@.auto_launch_os,
        r@.allow_revivel_extension == incoming@.allow_revivel_extension,
        r@.revivel_extension_id == incoming@.revivel_extension_id,
        r@.spv_servers == incoming@.spv_servers,
        r@.rpcuser == current@.rpcuser,
        r@.rpcpass == current@.rpcpass,
{
    AppSettings {
        auto_start_daemon: incoming.auto_start_daemon,
        auto_launch_os: incoming.auto_launch_os,
        allow_revivel_extension: incoming.allow_revivel_extension,
        revivel_extension_id: incoming.revivel_extension_id,
        spv_servers: incoming.spv_servers,
        rpcuser: current.rpcuser.clone(),
        rpcpass: current.rpcpass.clone(),
    }
}

/// Law: saving settings from the UI never replaces the generated RPC
/// credentials, and saving the same settings twice gives the same result as
/// saving them once.
pub proof fn law_save_keeps_credentials(current: SettingsView, incoming: SettingsView)
    ensures
        merged_settings(current, incoming).rpcuser == current.rpcuser,
        merged_settings(current, incoming).rpcpass == current.rpcpass,
        merged_settings(merged_settings(current, incoming), incoming) == merged_settings(
            current,
            incoming,
        ),
{
}

/// Law: saving settings from the UI takes each of the five user-editable
/// fields as the user chose it, whatever the current settings hold: in
/// particular auto-start and launch at login can be switched on and off, and
/// two saves with the same choices give the same choices whatever came
/// before.
pub proof fn law_save_takes_user_choices(
    current: SettingsView,
    other: SettingsView,
    incoming: SettingsView,
)
    ensures
        merged_settings(current, incoming).auto_start_daemon == incoming.auto_start_daemon,
        merged_settings(current, incoming).auto_launch_os == incoming.auto_launch_os,
        merged_settings(current, incoming).allow_revivel_extension
            == incoming.allow_revivel_extension,
        merged_settings(current, incoming).revivel_extension_id == incoming.revivel_extension_id,
        merged_settings(current, incoming).spv_servers == incoming.spv_servers,
        merged_settings(current, incoming).auto_start_daemon == merged_settings(
            other,
            incoming,
        ).auto_start_daemon,
        merged_settings(current, incoming).auto_launch_os == merged_settings(
            other,
            incoming,
        ).auto_launch_os,
{
}

/// `s` is a credential of length `n` drawn from the credential charset.
pub open spec fn is_credential(s: Seq<char>, n: nat) -> bool {
    &&& s.len() == n
    &&& forall|i: int| 0 <= i < s.len() ==> CREDENTIAL_CHARSET@.contains(#[trigger] s[i])
}

#[verifier::external_type_specification]
#[verifier::external_body]
pub struct ExThreadRng(rand::rngs::ThreadRng);

/// `rand::thread_rng`: a handle to the thread-local random generator.
/// Nothing is claimed of its state.
#[verifier::external_body]
fn thread_rng() -> rand::rngs::ThreadRng {
    rand::thread_rng()
}

/// `Rng::gen_range` on `0..bound`: the result lies in the range (rand panics
/// on an empty range, hence `bound > 0`). Which value comes out is chance.
#[verifier::external_body]
fn gen_index(rng: &mut rand::rngs::ThreadRng, bound: usize) -> (r: usize)
    requires
        bound > 0,
    ensures
        r < bound,
{
    rng.gen_range(0..bound)
}

/// Number of characters in the credential charset.
pub const CREDENTIAL_CHARSET_LEN: usize = 62;

/// The credential spelled by `draws`: each draw picks the charset character
/// at that index.
pub open spec fn credential_of(draws: Seq<usize>) -> Seq<char> {
    draws.map_values(|d: usize| CREDENTIAL_CHARSET@[d as int])
}

/// Turns draws from `0..62` into the credential they spell: character `i` is
/// the charset character at index `draws[i]`.
pub fn credential_from_draws(draws: &Vec<usize>) -> (r: String)
    requires
        forall|i: int| 0 <= i < draws@.len() ==> #[trigger] draws@[i] < CREDENTIAL_CHARSET_LEN,
    ensures
        r@ == credential_of(draws@),
{
    let mut s = String::new();
    let n = draws.len();
    let mut i: usize = 0;
    while i < n
        invariant
            n == draws@.len(),
            i <= n,
            forall|k: int| 0 <= k < draws@.len() ==> #[trigger] draws@[k] < CREDENTIAL_CHARSET_LEN,
            s@ == credential_of(draws@.take(i as int)),
        decreases n - i,
    {
        let c = CREDENTIAL_CHARSET[draws[i]];
        push_char(&mut s, c);
        assert(credential_of(draws@.take(i + 1)) =~= credential_of(draws@.take(i as int)).push(c));
        i = i + 1;
    }
    assert(draws@.take(n as int) =~= draws@);
    s
}

/// Law: draws from `0..62` always spell a credential of as many characters,
/// all from the charset.
pub proof fn law_draws_give_credential(draws: Seq<usize>)
    requires
        forall|i: int| 0 <= i < draws.len() ==> #[trigger] draws[i] < CREDENTIAL_CHARSET_LEN,
    ensures
        is_credential(credential_of(draws), draws.len()),
{
    let s = credential_of(draws);
    assert forall|i: int| 0 <= i < s.len() implies CREDENTIAL_CHARSET@.contains(#[trigger] s[i]) by {
        assert(s[i] == CREDENTIAL_CHARSET@[draws[i] as int]);
    }
}

/// A random string of `len` characters from the credential charset: `len`
/// draws from `0..62`, spelled out by `credential_from_draws`.
fn random_credential(rng: &mut rand::rngs::ThreadRng, len: usize) -> (s: String)
    ensures
        is_credential(s@, len as nat),
{
    let mut draws: Vec<usize> = Vec::new();
    let mut i: usize = 0;
    while i < len
        invariant
            i <= len,
            draws@.len() == i,
            forall|k: int| 0 <= k < draws@.len() ==> #[trigger] draws@[k] < CREDENTIAL_CHARSET_LEN,
        decreases len - i,
    {
        let d = gen_index(rng, CREDENTIAL_CHARSET_LEN);
        draws.push(d);
        i = i + 1;
    }
    proof {
        law_draws_give_credential(draws@);
    }
    credential_from_draws(&draws)
}

/// Fresh random RPC credentials: a 16-character user and a 32-character
/// password, both over `[A-Za-z0-9]`.
pub fn generate_rpc_credentials() -> (r: (String, String))
    ensures
        is_credential(r.0@, RPC_USER_LEN as nat),
        is_credential(r.1@, RPC_PASS_LEN as nat),
{
    let mut rng = thread_rng();
    let user = random_credential(&mut rng, RPC_USER_LEN);
    let pass = random_credential(&mut rng, RPC_PASS_LEN);
    (user, pass)
}

/// Makes sure RPC credentials exist: when either is empty both are replaced
/// by freshly generated ones. Returns whether that happened (the caller then
/// persists the settings).
pub fn ensure_credentials(s: &mut AppSettings) -> (generated: bool)
    ensures
        generated == (old(s)@.rpcuser.len() == 0 || old(s)@.rpcpass.len() == 0),
        !generated ==> final(s)@ == old(s)@,
        generated ==> {
            &&& is_credential(final(s)@.rpcuser, RPC_USER_LEN as nat)
            &&& is_credential(final(s)@.rpcpass, RPC_PASS_LEN as nat)
            &&& final(s)@ == (SettingsView {
                rpcuser: final(s)@.rpcuser,
                rpcpass: final(s)@.rpcpass,
                ..old(s)@
            })
        },
        final(s)@.rpcuser.len() > 0,
        final(s)@.rpcpass.len() > 0,
{
    if s.rpcuser.as_str().is_empty() || s.rpcpass.as_str().is_empty() {
        let (user, pass) = generate_rpc_credentials();
        s.rpcuser = user;
        s.rpcpass = pass;
        true
    } else {
        false
    }
}

/// Makes sure at least the default SPV servers are configured. Returns
/// whether the defaults were installed.
pub fn ensure_servers(s: &mut AppSettings) -> (reset: bool)
    ensures
        reset == (old(s)@.spv_servers.len() == 0),
        !reset ==> final(s)@ == old(s)@,
        reset ==> final(s)@ == (SettingsView { spv_servers: default_servers_spec(), ..old(s)@ }),
{
    if s.spv_servers.len() == 0 {
        s.spv_servers = default_spv_servers();
        true
    } else {
        false
    }
}

/// Puts the primary SPV servers of `s` first.
pub fn prioritize_settings_servers(s: &mut AppSettings)
    ensures
        final(s)@ == (SettingsView { spv_servers: prioritized(old(s)@.spv_servers), ..old(s)@ }),
{
    let r = prioritize_servers(&s.spv_servers);
    s.spv_servers = r;
}

} // verus!

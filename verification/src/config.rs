//! The lbrynet configuration file (`daemon_settings.yml`) the companion writes.
use vstd::prelude::*;

use crate::settings::{prioritize_servers, prioritized};
use crate::text::{
    is_white, join, leading_white, push_char, push_chars, push_str, str_chars, to_owned, trim_start, trim_start_chars,
    views,
};

verus! {

broadcast use vstd::string::group_string_axioms;

// ---------------------------------------------------------------------------
// Line handling (`str::lines`, `str::trim_start`, `join("\n")`)
// ---------------------------------------------------------------------------

/// `s` cut at every `\n` (there is always one more piece than newlines).
pub open spec fn split_newlines(s: Seq<char>) -> Seq<Seq<char>>
    decreases s.len(),
{
    if s.len() == 0 {
        seq![seq![]]
    } else {
        let r = split_newlines(s.drop_last());
        if s.last() == '\n' {
            r.push(seq![])
        } else {
            r.update(r.len() - 1, r.last().push(s.last()))
        }
    }
}

/// A line without its trailing carriage return.
pub open spec fn strip_cr(l: Seq<char>) -> Seq<char> {
    if l.len() > 0 && l.last() == '\r' {
        l.drop_last()
    } else {
        l
    }
}

/// The lines of `s` as `str::lines` yields them: line terminators (`\n` or
/// `\r\n`) removed, and no empty line after a final terminator.
pub open spec fn std_lines(s: Seq<char>) -> Seq<Seq<char>> {
    let p = split_newlines(s);
    let n: int = if p.last().len() == 0 {
        p.len() - 1
    } else {
        p.len() as int
    };
    Seq::new(n as nat, |i: int| if i < p.len() - 1 { strip_cr(p[i]) } else { p[i] })
}

/// Every line of `s` with its leading white space removed, joined with `\n`.
pub open spec fn dedent(s: Seq<char>) -> Seq<char> {
    join(std_lines(s).map_values(|l: Seq<char>| trim_start(l)), "\n"@)
}

proof fn lemma_split_newlines_nonempty(s: Seq<char>)
    ensures
        split_newlines(s).len() >= 1,
    decreases s.len(),
{
    if s.len() > 0 {
        lemma_split_newlines_nonempty(s.drop_last());
    }
}

/// The pieces of `v` between newlines.
fn split_newlines_exec(v: &Vec<char>) -> (r: (Vec<Vec<char>>, Vec<char>))
    ensures
        split_newlines(v@) == r.0@.map_values(|x: Vec<char>| x@).push(r.1@),
{
    let mut done: Vec<Vec<char>> = Vec::new();
    let mut cur: Vec<char> = Vec::new();
    let n = v.len();
    let mut i: usize = 0;
    assert(v@.take(0) =~= Seq::<char>::empty());
    assert(done@.map_values(|x: Vec<char>| x@).push(cur@) =~= seq![Seq::<char>::empty()]);
    while i < n
        invariant
            n == v.len(),
            i <= n,
            split_newlines(v@.take(i as int)) == done@.map_values(|x: Vec<char>| x@).push(cur@),
        decreases n - i,
    {
        let c = v[i];
        let ghost pre = v@.take(i as int);
        let ghost d0 = done@.map_values(|x: Vec<char>| x@);
        let ghost c0 = cur@;
        assert(v@.take(i + 1).drop_last() =~= pre);
        assert(v@.take(i + 1).last() == c);
        if c == '\n' {
            let piece = cur;
            done.push(piece);
            cur = Vec::new();
            assert(done@.map_values(|x: Vec<char>| x@) =~= d0.push(c0));
            assert(split_newlines(v@.take(i + 1)) =~= d0.push(c0).push(Seq::<char>::empty()));
        } else {
            cur.push(c);
            assert(split_newlines(v@.take(i + 1)) =~= d0.push(c0.push(c)));
        }
        i = i + 1;
    }
    assert(v@.take(n as int) =~= v@);
    (done, cur)
}

/// Removes a trailing carriage return.
fn strip_cr_exec(l: Vec<char>) -> (r: Vec<char>)
    ensures
        r@ == strip_cr(l@),
{
    let mut l = l;
    if l.len() > 0 && l[l.len() - 1] == '\r' {
        l.pop();
    }
    l
}

/// The lines of `v` (`str::lines`).
pub fn std_lines_exec(v: &Vec<char>) -> (r: Vec<Vec<char>>)
    ensures
        r@.map_values(|x: Vec<char>| x@) == std_lines(v@),
{
    let (done, last) = split_newlines_exec(v);
    let ghost p = split_newlines(v@);
    let ghost lines = std_lines(v@);
    let nd = done.len();
    let mut r: Vec<Vec<char>> = Vec::new();
    let mut i: usize = 0;
    while i < nd
        invariant
            nd == done.len(),
            i <= nd,
            p == done@.map_values(|x: Vec<char>| x@).push(last@),
            p == split_newlines(v@),
            lines == std_lines(v@),
            lines.len() >= nd,
            r@.map_values(|x: Vec<char>| x@) == lines.take(i as int),
        decreases nd - i,
    {
        assert(p[i as int] == done@[i as int]@);
        let piece = strip_cr_exec(done[i].clone());
        assert(lines[i as int] == strip_cr(p[i as int]));
        let ghost before = r@.map_values(|x: Vec<char>| x@);
        r.push(piece);
        assert(r@.map_values(|x: Vec<char>| x@) =~= before.push(lines[i as int]));
        assert(lines.take(i + 1) =~= lines.take(i as int).push(lines[i as int]));
        i = i + 1;
    }
    if last.len() > 0 {
        assert(lines.len() == nd + 1);
        assert(lines[nd as int] == last@);
        let ghost before = r@.map_values(|x: Vec<char>| x@);
        r.push(last);
        assert(r@.map_values(|x: Vec<char>| x@) =~= before.push(lines[nd as int]));
        assert(lines =~= lines.take(nd as int).push(lines[nd as int]));
    } else {
        assert(lines.len() == nd);
        assert(lines.take(nd as int) =~= lines);
    }
    r
}

/// `join(lines, "\n")` grows by one line.
pub proof fn lemma_join_push(items: Seq<Seq<char>>, x: Seq<char>)
    ensures
        join(items.push(x), "\n"@) == if items.len() == 0 {
            x
        } else {
            join(items, "\n"@) + "\n"@ + x
        },
{
    assert(items.push(x).drop_last() =~= items);
}

/// Dedents `v`: each line trimmed at the start, lines joined with `\n`.
pub fn dedent_chars(v: &Vec<char>) -> (r: String)
    ensures
        r@ == dedent(v@),
{
    let (done, last) = split_newlines_exec(v);
    let ghost p = split_newlines(v@);
    let ghost lines = std_lines(v@);
    let ghost trimmed = lines.map_values(|l: Seq<char>| trim_start(l));
    let nd = done.len();
    let mut out = String::new();
    let mut i: usize = 0;
    while i < nd
        invariant
            nd == done.len(),
            i <= nd,
            p == done@.map_values(|x: Vec<char>| x@).push(last@),
            lines == std_lines(v@),
            trimmed == lines.map_values(|l: Seq<char>| trim_start(l)),
            p == split_newlines(v@),
            lines.len() >= nd,
            out@ == join(trimmed.take(i as int), "\n"@),
        decreases nd - i,
    {
        assert(p[i as int] == done@[i as int]@);
        let piece = strip_cr_exec(done[i].clone());
        let t = trim_start_chars(&piece);
        assert(lines[i as int] == strip_cr(p[i as int]));
        assert(t@ == trimmed[i as int]);
        assert(trimmed.take(i + 1) =~= trimmed.take(i as int).push(trimmed[i as int]));
        proof {
            lemma_join_push(trimmed.take(i as int), trimmed[i as int]);
        }
        if i > 0 {
            push_char(&mut out, '\n');
        }
        push_chars(&mut out, &t);
        assert(out@ =~= join(trimmed.take(i + 1), "\n"@)) by {
            reveal_strlit("\n");
        }
        i = i + 1;
    }
    if last.len() > 0 {
        assert(lines.len() == nd + 1);
        assert(lines[nd as int] == last@);
        let t = trim_start_chars(&last);
        assert(trimmed =~= trimmed.take(nd as int).push(trimmed[nd as int]));
        proof {
            lemma_join_push(trimmed.take(nd as int), trimmed[nd as int]);
        }
        if nd > 0 {
            push_char(&mut out, '\n');
        }
        push_chars(&mut out, &t);
        assert(out@ =~= join(trimmed, "\n"@)) by {
            reveal_strlit("\n");
        }
    } else {
        assert(lines.len() == nd);
        assert(trimmed.take(nd as int) =~= trimmed);
    }
    out
}

/// No line of `s` starts with white space (empty lines aside).
pub open spec fn lines_start_clean(s: Seq<char>) -> bool {
    forall|i: int|
        0 <= i < s.len() && (i == 0 || s[i - 1] == '\n') ==> (!is_white(#[trigger] s[i]) || s[i]
            == '\n')
}

/// `s` holds no line feed.
pub open spec fn single_line(s: Seq<char>) -> bool {
    forall|i: int| 0 <= i < s.len() ==> #[trigger] s[i] != '\n'
}

proof fn lemma_split_single_lines(s: Seq<char>)
    ensures
        forall|k: int| 0 <= k < split_newlines(s).len() ==> single_line(#[trigger] split_newlines(s)[k]),
    decreases s.len(),
{
    if s.len() > 0 {
        let t = s.drop_last();
        lemma_split_single_lines(t);
        lemma_split_newlines_nonempty(t);
        let r = split_newlines(t);
        if s.last() != '\n' {
            let last = r.last().push(s.last());
            assert(single_line(last)) by {
                assert(single_line(r[r.len() - 1]));
            }
            assert forall|k: int| 0 <= k < split_newlines(s).len() implies single_line(
                #[trigger] split_newlines(s)[k],
            ) by {
                if k < r.len() - 1 {
                    assert(split_newlines(s)[k] == r[k]);
                }
            }
        } else {
            assert forall|k: int| 0 <= k < split_newlines(s).len() implies single_line(
                #[trigger] split_newlines(s)[k],
            ) by {
                if k < r.len() {
                    assert(split_newlines(s)[k] == r[k]);
                }
            }
        }
    }
}

proof fn lemma_leading_white_bound(s: Seq<char>)
    ensures
        leading_white(s) <= s.len(),
        leading_white(s) < s.len() ==> !is_white(s[leading_white(s) as int]),
    decreases s.len(),
{
    if s.len() > 0 && is_white(s[0]) {
        let t = s.drop_first();
        lemma_leading_white_bound(t);
        if leading_white(s) < s.len() {
            assert(s[leading_white(s) as int] == t[leading_white(t) as int]);
        }
    }
}

/// A dedented line holds no line feed and does not start with white space.
proof fn lemma_trimmed_line(l: Seq<char>)
    requires
        single_line(l),
    ensures
        single_line(trim_start(l)),
        trim_start(l).len() > 0 ==> !is_white(trim_start(l)[0]),
{
    lemma_leading_white_bound(l);
    let t = trim_start(l);
    assert forall|i: int| 0 <= i < t.len() implies #[trigger] t[i] != '\n' by {
        assert(t[i] == l[i + leading_white(l)]);
    }
}

proof fn lemma_join_clean(items: Seq<Seq<char>>)
    requires
        forall|k: int| 0 <= k < items.len() ==> single_line(#[trigger] items[k]),
        forall|k: int| 0 <= k < items.len() && items[k].len() > 0 ==> !is_white(#[trigger] items[k][0]),
    ensures
        lines_start_clean(join(items, "\n"@)),
    decreases items.len(),
{
    reveal_strlit("\n");
    if items.len() >= 2 {
        let init = items.drop_last();
        let x = items.last();
        lemma_join_clean(init);
        let a = join(init, "\n"@);
        let j = join(items, "\n"@);
        assert(j == a + "\n"@ + x);
        assert(single_line(items[items.len() - 1]));
        assert forall|i: int| 0 <= i < j.len() && (i == 0 || j[i - 1] == '\n') implies (!is_white(
            #[trigger] j[i],
        ) || j[i] == '\n') by {
            if i < a.len() {
                assert(j[i] == a[i]);
                if i > 0 {
                    assert(j[i - 1] == a[i - 1]);
                }
            } else if i == a.len() {
                assert(j[i] == '\n');
            } else {
                assert(j[i] == x[i - a.len() - 1]);
                if i > a.len() + 1 {
                    assert(j[i - 1] == x[i - a.len() - 2]);
                } else {
                    assert(x.len() > 0);
                    assert(!is_white(items[items.len() - 1][0]));
                }
            }
        }
    } else if items.len() == 1 {
        let x = items[0];
        assert(join(items, "\n"@) == x);
        assert forall|i: int| 0 <= i < x.len() && (i == 0 || x[i - 1] == '\n') implies (!is_white(
            #[trigger] x[i],
        ) || x[i] == '\n') by {
            assert(single_line(items[0]));
            if i == 0 {
                assert(!is_white(items[0][0]));
            }
        }
    }
}

/// Law: after dedenting, no line starts with white space (every YAML key
/// sits at the start of its line), whatever the interpolated values hold.
pub proof fn law_dedent_clean(s: Seq<char>)
    ensures
        lines_start_clean(dedent(s)),
{
    let p = split_newlines(s);
    lemma_split_single_lines(s);
    lemma_split_newlines_nonempty(s);
    let lines = std_lines(s);
    let trimmed = lines.map_values(|l: Seq<char>| trim_start(l));
    assert forall|k: int| 0 <= k < lines.len() implies single_line(#[trigger] lines[k]) by {
        assert(single_line(p[k]));
        if k < p.len() - 1 {
            assert(lines[k] == strip_cr(p[k]));
            assert forall|i: int| 0 <= i < strip_cr(p[k]).len() implies #[trigger] strip_cr(p[k])[i]
                != '\n' by {
                assert(strip_cr(p[k])[i] == p[k][i]);
            }
        }
    }
    assert forall|k: int| 0 <= k < trimmed.len() implies single_line(#[trigger] trimmed[k]) && (
    trimmed[k].len() > 0 ==> !is_white(trimmed[k][0])) by {
        lemma_trimmed_line(lines[k]);
    }
    lemma_join_clean(trimmed);
}

/// Law: the rendered configuration has no line that starts with white space.
pub proof fn law_config_lines_clean(
    allow: bool,
    servers: Seq<Seq<char>>,
    user: Seq<char>,
    pass: Seq<char>,
    data_dir: Seq<char>,
)
    ensures
        lines_start_clean(config_text(allow, servers, user, pass, data_dir)),
{
    law_dedent_clean(raw_config(allow, servers, user, pass, data_dir));
}

// ---------------------------------------------------------------------------
// The configuration text
// ---------------------------------------------------------------------------

/// Text before the RPC user.
pub const CONFIG_HEAD: &'static str = "# ReviveL Companion generated config for lbrynet\n# Uses SPV mode by default (no full node/lbcd required)\n\napi: 127.0.0.1:5279\n\nrpcuser: ";

/// Text between the RPC user and the password.
pub const CONFIG_PASS: &'static str = "\nrpcpass: ";

/// Text between the password and the server list.
pub const CONFIG_SERVERS: &'static str = "\n\n# Prefer reliable public SPV servers\nlbryum_servers:\n";

/// Text before the download directory.
pub const CONFIG_DEFAULTS: &'static str = "\n\n# Reasonable defaults for a companion daemon\nsave_files: false\ndownload_directory: \"";

/// Text after the download directory.
pub const CONFIG_TAIL: &'static str = "/downloads\"\nblob_lru_cache_size: 100\nmax_connections_per_download: 8\nconcurrent_blob_downloads: 2\n";

/// Origin lbrynet admits when extension access is on: any (CORS `*`).
pub const ALLOWED_ORIGIN_ANY: &'static str = "*";

/// The line that opens lbrynet's CORS to browser extensions, or a comment
/// when extension access is off.
pub open spec fn allowed_line(allow: bool) -> Seq<char> {
    if allow {
        "allowed_origin: \""@ + ALLOWED_ORIGIN_ANY@ + "\"\n"@
    } else {
        "# allowed_origin disabled\n"@
    }
}

/// YAML list items for the servers.
pub open spec fn server_items(servers: Seq<Seq<char>>) -> Seq<Seq<char>> {
    servers.map_values(|s: Seq<char>| "- "@ + s)
}

/// `s` with every backslash turned into a slash.
pub open spec fn slashes(s: Seq<char>) -> Seq<char> {
    s.map_values(|c: char| if c == '\\' { '/' } else { c })
}

/// The configuration before dedenting.
pub open spec fn raw_config(
    allow: bool,
    servers: Seq<Seq<char>>,
    user: Seq<char>,
    pass: Seq<char>,
    data_dir: Seq<char>,
) -> Seq<char> {
    CONFIG_HEAD@ + user + CONFIG_PASS@ + pass + CONFIG_SERVERS@ + join(
        server_items(prioritized(servers)),
        "\n"@,
    ) + "\n\n"@ + allowed_line(allow) + CONFIG_DEFAULTS@ + slashes(data_dir) + CONFIG_TAIL@
}

/// The configuration file contents written for lbrynet.
pub open spec fn config_text(
    allow: bool,
    servers: Seq<Seq<char>>,
    user: Seq<char>,
    pass: Seq<char>,
    data_dir: Seq<char>,
) -> Seq<char> {
    dedent(raw_config(allow, servers, user, pass, data_dir))
}

/// `s` with backslashes replaced by slashes (`str::replace('\\', "/")`).
pub fn slashes_exec(s: &str) -> (r: Vec<char>)
    ensures
        r@ == slashes(s@),
{
    let v = str_chars(s);
    let n = v.len();
    let mut r: Vec<char> = Vec::new();
    let mut i: usize = 0;
    while i < n
        invariant
            n == v.len(),
            i <= n,
            r@ == slashes(v@.take(i as int)),
        decreases n - i,
    {
        let c = v[i];
        if c == '\\' {
            r.push('/');
        } else {
            r.push(c);
        }
        assert(slashes(v@.take(i + 1)) =~= slashes(v@.take(i as int)).push(
            if c == '\\' { '/' } else { c },
        ));
        i = i + 1;
    }
    assert(v@.take(n as int) =~= v@);
    r
}

/// The YAML server items, `- server` each.
fn server_items_exec(servers: &Vec<String>) -> (r: Vec<String>)
    ensures
        views(r@) == server_items(views(servers@)),
{
    let n = servers.len();
    let mut r: Vec<String> = Vec::new();
    let mut i: usize = 0;
    while i < n
        invariant
            n == servers.len(),
            i <= n,
            views(r@) == server_items(views(servers@.take(i as int))),
        decreases n - i,
    {
        let mut item = to_owned("- ");
        push_str(&mut item, servers[i].as_str());
        let ghost before = r@;
        r.push(item);
        assert(views(r@) =~= views(before).push("- "@ + servers@[i as int]@));
        assert(server_items(views(servers@.take(i + 1))) =~= server_items(
            views(servers@.take(i as int)),
        ).push("- "@ + servers@[i as int]@));
        i = i + 1;
    }
    assert(servers@.take(n as int) == servers@);
    r
}

/// Renders the lbrynet configuration: RPC credentials, the SPV servers
/// (primary first), CORS opened to browser extensions when extension access
/// is allowed, and the download directory under `data_dir` with forward
/// slashes; every line is dedented.
pub fn render_config(
    allow_extension: bool,
    servers: &Vec<String>,
    rpcuser: &str,
    rpcpass: &str,
    data_dir: &str,
) -> (r: String)
    ensures
        r@ == config_text(allow_extension, views(servers@), rpcuser@, rpcpass@, data_dir@),
{
    let ordered = prioritize_servers(servers);
    let items = server_items_exec(&ordered);
    let listing = crate::text::join_strings(&items, "\n");
    let mut content = to_owned(CONFIG_HEAD);
    push_str(&mut content, rpcuser);
    push_str(&mut content, CONFIG_PASS);
    push_str(&mut content, rpcpass);
    push_str(&mut content, CONFIG_SERVERS);
    push_str(&mut content, listing.as_str());
    push_str(&mut content, "\n\n");
    if allow_extension {
        push_str(&mut content, "allowed_origin: \"");
        push_str(&mut content, ALLOWED_ORIGIN_ANY);
        push_str(&mut content, "\"\n");
    } else {
        push_str(&mut content, "# allowed_origin disabled\n");
    }
    push_str(&mut content, CONFIG_DEFAULTS);
    let data = slashes_exec(data_dir);
    push_chars(&mut content, &data);
    push_str(&mut content, CONFIG_TAIL);
    assert(content@ =~= raw_config(allow_extension, views(servers@), rpcuser@, rpcpass@, data_dir@));
    let chars = str_chars(content.as_str());
    dedent_chars(&chars)
}

/// Law: the SPV server listing of the configuration does not depend on
/// extension access: with it on or off, the `lbryum_servers:` section lists
/// `- s` for every server `s` with the primary servers first, and the two
/// configurations agree up to the end of that listing.
pub proof fn law_config_servers_prioritized(
    allow: bool,
    servers: Seq<Seq<char>>,
    user: Seq<char>,
    pass: Seq<char>,
    data_dir: Seq<char>,
)
    ensures
        ({
            let pre = CONFIG_HEAD@ + user + CONFIG_PASS@ + pass + CONFIG_SERVERS@;
            let listing = join(
                prioritized(servers).map_values(|s: Seq<char>| "- "@ + s),
                "\n"@,
            );
            let c = raw_config(allow, servers, user, pass, data_dir);
            let end = pre.len() + listing.len();
            &&& c.subrange(0, pre.len() as int) == pre
            &&& c.subrange(pre.len() as int, end as int) == listing
            &&& c.subrange(0, end as int) == raw_config(!allow, servers, user, pass, data_dir).subrange(
                0,
                end as int,
            )
        }),
{
    let pre = CONFIG_HEAD@ + user + CONFIG_PASS@ + pass + CONFIG_SERVERS@;
    let listing = join(prioritized(servers).map_values(|s: Seq<char>| "- "@ + s), "\n"@);
    assert(server_items(prioritized(servers)) =~= prioritized(servers).map_values(
        |s: Seq<char>| "- "@ + s,
    ));
    let end = pre.len() + listing.len();
    let rest_a = "\n\n"@ + allowed_line(allow) + CONFIG_DEFAULTS@ + slashes(data_dir) + CONFIG_TAIL@;
    let rest_b = "\n\n"@ + allowed_line(!allow) + CONFIG_DEFAULTS@ + slashes(data_dir)
        + CONFIG_TAIL@;
    let c = raw_config(allow, servers, user, pass, data_dir);
    let d = raw_config(!allow, servers, user, pass, data_dir);
    assert(c =~= pre + listing + rest_a);
    assert(d =~= pre + listing + rest_b);
    assert(c.subrange(0, pre.len() as int) =~= pre);
    assert(c.subrange(pre.len() as int, end as int) =~= listing);
    assert(c.subrange(0, end as int) =~= pre + listing);
    assert(d.subrange(0, end as int) =~= pre + listing);
}

} // verus!

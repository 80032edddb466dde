//! The startup configuration: the `key=value` file kept between runs, the
//! command line that overrides it, and what a start does with both.
use vstd::prelude::*;
use vstd::string::*;
use crate::text::{
    chars_of, concat_str, decimal, decimal_string, is_white_space, lemma_decimal,
    lemma_parse_decimal, lemma_trim_end_stops, lemma_trim_start_stops, parse_u16,
    parse_u16_str, str_eq, trim, trim_str,
};

verus! {

/// What is kept between runs: the peer to dial at start and the port to
/// listen on.
#[derive(Debug)]
pub struct AppConfig {
    pub bootstrap_addr: Option<String>,
    pub listen_port: Option<u16>,
}

/// An [`AppConfig`] as plain values.
pub struct AppConfigView {
    pub bootstrap_addr: Option<Seq<char>>,
    pub listen_port: Option<u16>,
}

impl View for AppConfig {
    type V = AppConfigView;

    open spec fn view(&self) -> AppConfigView {
        AppConfigView { bootstrap_addr: self.bootstrap_addr.deep_view(), listen_port: self.listen_port }
    }
}

/// Neither a bootstrap peer nor a port.
pub open spec fn empty_config() -> AppConfigView {
    AppConfigView { bootstrap_addr: None, listen_port: None }
}

impl Clone for AppConfig {
    fn clone(&self) -> (r: Self)
        ensures
            r@ == self@,
    {
        let bootstrap_addr = match &self.bootstrap_addr {
            Some(a) => Some(a.clone()),
            None => None,
        };
        AppConfig { bootstrap_addr, listen_port: self.listen_port }
    }
}

impl Default for AppConfig {
    fn default() -> (r: Self)
        ensures
            r@ == empty_config(),
    {
        AppConfig { bootstrap_addr: None, listen_port: None }
    }
}

// ---------------------------------------------------------------------------
// Reading the file
// ---------------------------------------------------------------------------

/// `s` cut at every `'\n'`; the last piece is what follows the last `'\n'`
/// (possibly empty). Every piece is trimmed before use, so this gives the same
/// configuration as `str::lines`, which also drops a `'\r'` before a `'\n'`
/// and a final empty piece.
pub open spec fn split_lines(s: Seq<char>) -> Seq<Seq<char>>
    decreases s.len(),
{
    if s.len() == 0 {
        seq![Seq::<char>::empty()]
    } else {
        let prev = split_lines(s.drop_last());
        if s.last() == '\n' {
            prev.push(Seq::<char>::empty())
        } else {
            prev.update(prev.len() - 1, prev.last().push(s.last()))
        }
    }
}

/// The index of the first `c` in `s`, if there is one.
pub open spec fn index_of(s: Seq<char>, c: char) -> Option<int>
    decreases s.len(),
{
    if s.len() == 0 {
        None
    } else if s[0] == c {
        Some(0)
    } else {
        match index_of(s.drop_first(), c) {
            Some(i) => Some(i + 1),
            None => None,
        }
    }
}

/// One line of the file applied to the configuration read so far: blank lines,
/// `#` comments, lines without `=` and unknown keys change nothing; an empty
/// value changes nothing; a port that is not a 16-bit number changes nothing.
pub open spec fn apply_config_line(cfg: AppConfigView, line: Seq<char>) -> AppConfigView {
    let t = trim(line);
    if t.len() == 0 || t[0] == '#' {
        cfg
    } else {
        match index_of(t, '=') {
            None => cfg,
            Some(i) => {
                let key = trim(t.subrange(0, i));
                let value = trim(t.subrange(i + 1, t.len() as int));
                if key == "bootstrap_addr"@ && value.len() > 0 {
                    AppConfigView { bootstrap_addr: Some(value), ..cfg }
                } else if key == "listen_port"@ && value.len() > 0 {
                    match parse_u16(value) {
                        Some(p) => AppConfigView { listen_port: Some(p), ..cfg },
                        None => cfg,
                    }
                } else {
                    cfg
                }
            },
        }
    }
}

/// The configuration that a sequence of lines gives, read in order from the
/// empty configuration.
pub open spec fn config_from_lines(lines: Seq<Seq<char>>) -> AppConfigView
    decreases lines.len(),
{
    if lines.len() == 0 {
        empty_config()
    } else {
        apply_config_line(config_from_lines(lines.drop_last()), lines.last())
    }
}

/// The configuration that a file's text gives.
pub open spec fn parsed_config(content: Seq<char>) -> AppConfigView {
    config_from_lines(split_lines(content))
}

proof fn lemma_split_lines_nonempty(s: Seq<char>)
    ensures
        split_lines(s).len() >= 1,
    decreases s.len(),
{
    if s.len() > 0 {
        lemma_split_lines_nonempty(s.drop_last());
    }
}

proof fn lemma_index_of(s: Seq<char>, c: char, i: int)
    requires
        0 <= i <= s.len(),
        forall|k: int| 0 <= k < i ==> s[k] != c,
        i < s.len() ==> s[i] == c,
    ensures
        index_of(s, c) == (if i < s.len() {
            Some(i)
        } else {
            None::<int>
        }),
    decreases i,
{
    if s.len() > 0 && i > 0 {
        lemma_index_of(s.drop_first(), c, i - 1);
    }
}

/// The position of the first `c` among `cs`.
fn find_char(cs: &Vec<char>, c: char) -> (r: Option<usize>)
    ensures
        index_of(cs@, c) == (match r {
            Some(i) => Some(i as int),
            None => None,
        }),
        r matches Some(i) ==> i < cs@.len(),
{
    let n = cs.len();
    let mut i: usize = 0;
    while i < n
        invariant
            n == cs@.len(),
            i <= n,
            forall|k: int| 0 <= k < i ==> cs@[k] != c,
        decreases n - i,
    {
        if cs[i] == c {
            proof {
                lemma_index_of(cs@, c, i as int);
            }
            return Some(i);
        }
        i = i + 1;
    }
    proof {
        lemma_index_of(cs@, c, n as int);
    }
    None
}

/// Applies one line of the file to `cfg`.
pub fn apply_config_line_exec(cfg: AppConfig, line: &str) -> (r: AppConfig)
    ensures
        r@ == apply_config_line(cfg@, line@),
{
    let t = trim_str(line);
    let tc = chars_of(t);
    if tc.len() == 0 || tc[0] == '#' {
        return cfg;
    }
    match find_char(&tc, '=') {
        None => cfg,
        Some(i) => {
            let key = trim_str(t.substring_char(0, i));
            let value = trim_str(t.substring_char(i + 1, tc.len()));
            let value_len = value.unicode_len();
            if str_eq(key, "bootstrap_addr") && value_len > 0 {
                AppConfig { bootstrap_addr: Some(value.to_owned()), listen_port: cfg.listen_port }
            } else if str_eq(key, "listen_port") && value_len > 0 {
                match parse_u16_str(value) {
                    Some(p) => AppConfig { bootstrap_addr: cfg.bootstrap_addr, listen_port: Some(p) },
                    None => cfg,
                }
            } else {
                cfg
            }
        },
    }
}

/// Reads the text of a configuration file: `key=value` lines, where
/// `bootstrap_addr` holds a multiaddr and `listen_port` a port number.
pub fn parse_config(content: &str) -> (r: AppConfig)
    ensures
        r@ == parsed_config(content@),
{
    let cs = chars_of(content);
    let n = cs.len();
    let mut cfg = AppConfig::default();
    let mut start: usize = 0;
    let mut i: usize = 0;
    let ghost mut done: Seq<Seq<char>> = Seq::empty();
    assert(content@.take(0) =~= Seq::<char>::empty());
    assert(split_lines(content@.take(0)) =~= done.push(content@.subrange(0, 0)));
    while i < n
        invariant
            cs@ == content@,
            n == cs@.len(),
            start <= i <= n,
            split_lines(content@.take(i as int)) == done.push(content@.subrange(start as int, i as int)),
            cfg@ == config_from_lines(done),
        decreases n - i,
    {
        let ghost prefix = content@.take(i as int);
        let ghost next = content@.take(i + 1);
        assert(next.drop_last() =~= prefix);
        assert(next.last() == cs@[i as int]);
        if cs[i] == '\n' {
            let line = content.substring_char(start, i);
            cfg = apply_config_line_exec(cfg, line);
            proof {
                let old_done = done;
                done = done.push(content@.subrange(start as int, i as int));
                assert(done.drop_last() =~= old_done);
                assert(content@.subrange(i + 1, i + 1) =~= Seq::<char>::empty());
                assert(split_lines(next) =~= done.push(content@.subrange(i + 1, i + 1)));
            }
            start = i + 1;
        } else {
            proof {
                assert(content@.subrange(start as int, i + 1) =~= content@.subrange(
                    start as int,
                    i as int,
                ).push(cs@[i as int]));
                assert(split_lines(next) =~= done.push(content@.subrange(start as int, i + 1)));
            }
        }
        i = i + 1;
    }
    let line = content.substring_char(start, n);
    let r = apply_config_line_exec(cfg, line);
    proof {
        assert(content@.take(n as int) =~= content@);
        let all = done.push(content@.subrange(start as int, n as int));
        assert(all.drop_last() =~= done);
    }
    r
}

// ---------------------------------------------------------------------------
// Writing the file
// ---------------------------------------------------------------------------

/// The text of the `bootstrap_addr` value: the address, or nothing.
pub open spec fn addr_text(a: Option<Seq<char>>) -> Seq<char> {
    match a {
        Some(s) => s,
        None => Seq::empty(),
    }
}

/// The text of the `listen_port` value: the port in decimal, or nothing.
pub open spec fn port_text(p: Option<u16>) -> Seq<char> {
    match p {
        Some(n) => decimal(n as nat),
        None => Seq::empty(),
    }
}

/// The file written for `cfg`: a comment line, then one line per key, with an
/// empty value where a setting is absent, and no final line break.
pub open spec fn rendered_config(cfg: AppConfigView) -> Seq<char> {
    "# grokchat startup config"@ + "\n"@ + "bootstrap_addr="@ + addr_text(cfg.bootstrap_addr)
        + "\n"@ + "listen_port="@ + port_text(cfg.listen_port)
}

/// The text of the configuration file for `config`.
pub fn render_config(config: &AppConfig) -> (r: String)
    ensures
        r@ == rendered_config(config@),
{
    let mut out = String::from_str("# grokchat startup config");
    out.append("\n");
    out.append("bootstrap_addr=");
    match &config.bootstrap_addr {
        Some(a) => out.append(a.as_str()),
        None => {},
    }
    out.append("\n");
    out.append("listen_port=");
    match config.listen_port {
        Some(p) => {
            let digits = decimal_string(p as u64);
            out.append(digits.as_str());
        },
        None => {},
    }
    proof {
        assert(out@ =~= rendered_config(config@));
    }
    out
}


// ---------------------------------------------------------------------------
// What a written file gives back
// ---------------------------------------------------------------------------

/// An address that survives being written to the file and read back:
/// non-empty, on one line, not starting or ending with whitespace.
pub open spec fn storable_addr(a: Seq<char>) -> bool {
    &&& a.len() > 0
    &&& !is_white_space(a[0])
    &&& !is_white_space(a.last())
    &&& !a.contains('\n')
}

/// A configuration that the file can hold: its address, if any, is storable.
pub open spec fn storable_config(cfg: AppConfigView) -> bool {
    cfg.bootstrap_addr matches Some(a) ==> storable_addr(a)
}

proof fn lemma_trim_plain(s: Seq<char>)
    requires
        s.len() == 0 || (!is_white_space(s[0]) && !is_white_space(s.last())),
    ensures
        trim(s) == s,
{
    lemma_trim_start_stops(s);
    lemma_trim_end_stops(s);
}

proof fn lemma_split_append(x: Seq<char>, y: Seq<char>)
    requires
        !y.contains('\n'),
    ensures
        split_lines(x + y) == split_lines(x).update(
            split_lines(x).len() - 1,
            split_lines(x).last() + y,
        ),
        split_lines(x + y).len() == split_lines(x).len(),
    decreases y.len(),
{
    lemma_split_lines_nonempty(x);
    if y.len() == 0 {
        assert(x + y =~= x);
        assert(split_lines(x).last() + y =~= split_lines(x).last());
        assert(split_lines(x).update(split_lines(x).len() - 1, split_lines(x).last())
            =~= split_lines(x));
    } else {
        let y0 = y.drop_last();
        assert(!y0.contains('\n')) by {
            if y0.contains('\n') {
                let k = choose|k: int| 0 <= k < y0.len() && y0[k] == '\n';
                assert(y[k] == '\n');
            }
        }
        lemma_split_append(x, y0);
        assert((x + y).drop_last() =~= x + y0);
        assert((x + y).last() == y.last());
        assert(y.last() != '\n') by {
            assert(y[y.len() - 1] == y.last());
        }
        assert((split_lines(x).last() + y0).push(y.last()) =~= split_lines(x).last() + y);
        assert(split_lines(x + y) =~= split_lines(x).update(
            split_lines(x).len() - 1,
            split_lines(x).last() + y,
        ));
    }
}

proof fn lemma_split_newline(x: Seq<char>)
    ensures
        split_lines(x + "\n"@) == split_lines(x).push(Seq::<char>::empty()),
{
    reveal_strlit("\n");
    assert((x + "\n"@).drop_last() =~= x);
    assert((x + "\n"@).last() == '\n');
}

/// A `key=value` line with a plain key and value is read as that key and that
/// value.
proof fn lemma_key_value_line(key: Seq<char>, v: Seq<char>)
    requires
        key.len() > 0,
        !key.contains('='),
        key[0] != '#',
        !is_white_space(key[0]),
        !is_white_space(key.last()),
        v.len() == 0 || (!is_white_space(v[0]) && !is_white_space(v.last())),
    ensures
        ({
            let line = key.push('=') + v;
            &&& trim(line) == line
            &&& line.len() > 0
            &&& line[0] != '#'
            &&& index_of(line, '=') == Some(key.len() as int)
            &&& trim(line.subrange(0, key.len() as int)) == key
            &&& trim(line.subrange(key.len() as int + 1, line.len() as int)) == v
        }),
{
    let line = key.push('=') + v;
    assert(line[0] == key[0]);
    if v.len() == 0 {
        assert(line.last() == '=');
    } else {
        assert(line.last() == v.last());
    }
    lemma_trim_plain(line);
    assert forall|k: int| 0 <= k < key.len() implies line[k] != '=' by {
        assert(line[k] == key[k]);
    }
    lemma_index_of(line, '=', key.len() as int);
    assert(line.subrange(0, key.len() as int) =~= key);
    lemma_trim_plain(key);
    assert(line.subrange(key.len() as int + 1, line.len() as int) =~= v);
    lemma_trim_plain(v);
}

/// Law: reading back the file written for a configuration gives that
/// configuration, whenever its address (if any) is storable.
pub proof fn lemma_config_roundtrip(cfg: AppConfigView)
    requires
        storable_config(cfg),
    ensures
        parsed_config(rendered_config(cfg)) == cfg,
{
    reveal_strlit("# grokchat startup config");
    reveal_strlit("\n");
    reveal_strlit("bootstrap_addr=");
    reveal_strlit("listen_port=");
    reveal_strlit("bootstrap_addr");
    reveal_strlit("listen_port");
    let l1 = "# grokchat startup config"@;
    let nl = "\n"@;
    let a = addr_text(cfg.bootstrap_addr);
    let d = port_text(cfg.listen_port);
    let bkey = "bootstrap_addr"@;
    let pkey = "listen_port"@;
    assert("bootstrap_addr="@ =~= bkey.push('='));
    assert("listen_port="@ =~= pkey.push('='));
    let l2 = bkey.push('=') + a;
    let l3 = pkey.push('=') + d;
    match cfg.listen_port {
        Some(p) => {
            lemma_decimal(p as nat);
            lemma_parse_decimal(p);
            assert(is_white_space_free_digits(d));
        },
        None => {},
    }
    // the lines of the file
    assert(!l1.contains('\n')) by {
        if l1.contains('\n') {
            let k = choose|k: int| 0 <= k < l1.len() && l1[k] == '\n';
            assert(false);
        }
    }
    assert(!l2.contains('\n')) by {
        if l2.contains('\n') {
            let k = choose|k: int| 0 <= k < l2.len() && l2[k] == '\n';
            if k >= 15 {
                assert(a[k - 15] == '\n');
            }
            assert(false);
        }
    }
    assert(!l3.contains('\n')) by {
        if l3.contains('\n') {
            let k = choose|k: int| 0 <= k < l3.len() && l3[k] == '\n';
            if k >= 12 {
                assert(d[k - 12] == '\n');
            }
            assert(false);
        }
    }
    let e = Seq::<char>::empty();
    assert(split_lines(e) =~= seq![e]);
    lemma_split_append(e, l1);
    assert(e + l1 =~= l1);
    assert(split_lines(l1) =~= seq![l1]);
    let c1 = l1 + nl;
    lemma_split_newline(l1);
    let c2 = c1 + l2;
    lemma_split_append(c1, l2);
    assert(split_lines(c2) =~= seq![l1, l2]);
    let c3 = c2 + nl;
    lemma_split_newline(c2);
    let c4 = c3 + l3;
    lemma_split_append(c3, l3);
    let lines = seq![l1, l2, l3];
    assert(split_lines(c4) =~= lines);
    assert(rendered_config(cfg) =~= c4);
    // reading them
    assert(lines.drop_last() =~= seq![l1, l2]);
    assert(seq![l1, l2].drop_last() =~= seq![l1]);
    assert(seq![l1].drop_last() =~= Seq::<Seq<char>>::empty());
    lemma_trim_plain(l1);
    let c_after1 = apply_config_line(empty_config(), l1);
    assert(c_after1 == empty_config());
    lemma_key_value_line(bkey, a);
    lemma_key_value_line(pkey, d);
    assert(bkey != pkey) by {
        assert(bkey.len() != pkey.len());
    }
    let c_after2 = apply_config_line(c_after1, l2);
    assert(c_after2 == AppConfigView { bootstrap_addr: cfg.bootstrap_addr, listen_port: None });
    let c_after3 = apply_config_line(c_after2, l3);
    assert(c_after3 == cfg);
    assert(config_from_lines(Seq::<Seq<char>>::empty()) == empty_config());
    assert(seq![l1].last() == l1);
    assert(config_from_lines(seq![l1]) == c_after1);
    assert(config_from_lines(seq![l1, l2]) == c_after2);
    assert(config_from_lines(lines) == c_after3);
}

/// Whether `d` is empty or made of ASCII digits only (none of them
/// whitespace or a line break).
pub open spec fn is_white_space_free_digits(d: Seq<char>) -> bool {
    forall|i: int| 0 <= i < d.len() ==> !is_white_space(#[trigger] d[i]) && d[i] != '\n'
}


// ---------------------------------------------------------------------------
// The command line
// ---------------------------------------------------------------------------

/// What the command line gives, read from argument `i` on with the peer and
/// port found so far: `--peer ADDR` and `--port PORT` set them (a later one
/// wins), another argument that starts with `-` is refused, and any other
/// argument is taken as the peer unless one is already set. The error is the
/// message shown to the user.
pub open spec fn startup_args_from(
    args: Seq<Seq<char>>,
    i: int,
    peer: Option<Seq<char>>,
    port: Option<u16>,
) -> Result<(Option<Seq<char>>, Option<u16>), Seq<char>>
    decreases args.len() - i,
{
    if i < 0 || i >= args.len() {
        Ok((peer, port))
    } else if args[i] == "--peer"@ {
        if i + 1 >= args.len() {
            Err("Ожидается значение после --peer"@)
        } else {
            startup_args_from(args, i + 2, Some(args[i + 1]), port)
        }
    } else if args[i] == "--port"@ {
        if i + 1 >= args.len() {
            Err("Ожидается значение после --port"@)
        } else {
            match parse_u16(args[i + 1]) {
                Some(p) => startup_args_from(args, i + 2, peer, Some(p)),
                None => Err("Порт должен быть числом 0..65535"@),
            }
        }
    } else if args[i].len() > 0 && args[i][0] == '-' {
        Err("Неизвестный аргумент: "@ + args[i])
    } else {
        startup_args_from(
            args,
            i + 1,
            if peer is None {
                Some(args[i])
            } else {
                peer
            },
            port,
        )
    }
}

/// What the whole command line (without the program name) gives.
pub open spec fn startup_args(args: Seq<Seq<char>>) -> Result<
    (Option<Seq<char>>, Option<u16>),
    Seq<char>,
> {
    startup_args_from(args, 0, None, None)
}

/// Reads the command line (the arguments after the program name):
/// `--peer <MULTIADDR>`, `--port <PORT>`, or a multiaddr on its own.
pub fn parse_startup_args(args: &Vec<String>) -> (r: Result<(Option<String>, Option<u16>), String>)
    ensures
        match r {
            Ok((peer, port)) => startup_args(args.deep_view()) == Ok::<
                (Option<Seq<char>>, Option<u16>),
                Seq<char>,
            >((peer.deep_view(), port)),
            Err(msg) => startup_args(args.deep_view()) == Err::<
                (Option<Seq<char>>, Option<u16>),
                Seq<char>,
            >(msg@),
        },
{
    let ghost view = args.deep_view();
    let n = args.len();
    let mut bootstrap_addr: Option<String> = None;
    let mut listen_port: Option<u16> = None;
    let mut i: usize = 0;
    while i < n
        invariant
            n == args@.len(),
            view == args.deep_view(),
            view.len() == n,
            i <= n,
            startup_args(view) == startup_args_from(
                view,
                i as int,
                bootstrap_addr.deep_view(),
                listen_port,
            ),
        decreases n - i,
    {
        let arg = args[i].as_str();
        assert(arg@ == view[i as int]);
        if str_eq(arg, "--peer") {
            if i + 1 >= n {
                return Err(String::from_str("Ожидается значение после --peer"));
            }
            assert(args[i + 1 as int]@ == view[i + 1]);
            bootstrap_addr = Some(args[i + 1].clone());
            i = i + 2;
        } else if str_eq(arg, "--port") {
            if i + 1 >= n {
                return Err(String::from_str("Ожидается значение после --port"));
            }
            assert(args[i + 1 as int]@ == view[i + 1]);
            match parse_u16_str(args[i + 1].as_str()) {
                Some(p) => {
                    listen_port = Some(p);
                },
                None => {
                    return Err(String::from_str("Порт должен быть числом 0..65535"));
                },
            }
            i = i + 2;
        } else {
            let cs = chars_of(arg);
            if cs.len() > 0 && cs[0] == '-' {
                return Err(concat_str("Неизвестный аргумент: ", arg));
            }
            if bootstrap_addr.is_none() {
                bootstrap_addr = Some(args[i].clone());
            }
            i = i + 1;
        }
    }
    Ok((bootstrap_addr, listen_port))
}

// ---------------------------------------------------------------------------
// Starting up
// ---------------------------------------------------------------------------

/// What a start does with the saved configuration and the command line.
pub struct StartupPlan {
    /// The configuration to run with.
    pub config: AppConfig,
    /// No configuration file was there.
    pub first_run: bool,
    /// The configuration file must be (re)written.
    pub save_config: bool,
}

/// The configuration a start runs with: the saved one (or the empty one on a
/// first run), with what the command line gives put over it.
pub open spec fn startup_config(
    loaded: Option<AppConfigView>,
    peer: Option<Seq<char>>,
    port: Option<u16>,
) -> AppConfigView {
    let base = match loaded {
        Some(c) => c,
        None => empty_config(),
    };
    AppConfigView {
        bootstrap_addr: if peer is Some {
            peer
        } else {
            base.bootstrap_addr
        },
        listen_port: if port is Some {
            port
        } else {
            base.listen_port
        },
    }
}

/// Puts the command line over the saved configuration (`None` on a first run)
/// and decides whether the file must be written: on a first run, and whenever
/// the command line set something.
pub fn plan_startup(loaded: Option<AppConfig>, peer: Option<String>, port: Option<u16>) -> (r:
    StartupPlan)
    ensures
        r.config@ == startup_config(
            match loaded {
                Some(c) => Some(c@),
                None => None,
            },
            peer.deep_view(),
            port,
        ),
        r.first_run == loaded is None,
        r.save_config == (loaded is None || peer is Some || port is Some),
{
    let first_run = loaded.is_none();
    let mut config = match loaded {
        Some(c) => c,
        None => AppConfig::default(),
    };
    let save_config = first_run || peer.is_some() || port.is_some();
    if let Some(addr) = peer {
        config.bootstrap_addr = Some(addr);
    }
    if let Some(p) = port {
        config.listen_port = Some(p);
    }
    StartupPlan { config, first_run, save_config }
}

/// The address to listen on: all IPv4 interfaces, TCP, on the given port, or
/// on a port the system picks (`0`) when none is set.
pub open spec fn listen_address_text(port: Option<u16>) -> Seq<char> {
    "/ip4/0.0.0.0/tcp/"@ + decimal(
        match port {
            Some(p) => p as nat,
            None => 0,
        },
    )
}

/// The multiaddr the node listens on.
pub fn listen_address(port: Option<u16>) -> (r: String)
    ensures
        r@ == listen_address_text(port),
{
    let p: u16 = match port {
        Some(p) => p,
        None => 0,
    };
    let digits = decimal_string(p as u64);
    concat_str("/ip4/0.0.0.0/tcp/", digits.as_str())
}

// ---------------------------------------------------------------------------
// Laws of the command line and of starting up
// ---------------------------------------------------------------------------

/// A command-line result with `p` as the port when no port was given.
pub open spec fn with_default_port(
    r: Result<(Option<Seq<char>>, Option<u16>), Seq<char>>,
    p: u16,
) -> Result<(Option<Seq<char>>, Option<u16>), Seq<char>> {
    match r {
        Ok((peer, q)) => Ok(
            (
                peer,
                if q is Some {
                    q
                } else {
                    Some(p)
                },
            ),
        ),
        Err(e) => Err(e),
    }
}

proof fn lemma_args_shift(
    pre: Seq<Seq<char>>,
    rest: Seq<Seq<char>>,
    k: int,
    peer: Option<Seq<char>>,
    port: Option<u16>,
)
    requires
        0 <= k <= rest.len(),
    ensures
        startup_args_from(pre + rest, pre.len() + k, peer, port) == startup_args_from(
            rest,
            k,
            peer,
            port,
        ),
    decreases rest.len() - k,
{
    let args = pre + rest;
    let i = pre.len() + k;
    if k < rest.len() {
        assert(args[i] == rest[k]);
        if k + 1 < rest.len() {
            assert(args[i + 1] == rest[k + 1]);
            lemma_args_shift(pre, rest, k + 2, Some(rest[k + 1]), port);
            if let Some(p) = parse_u16(rest[k + 1]) {
                lemma_args_shift(pre, rest, k + 2, peer, Some(p));
            }
        }
        lemma_args_shift(
            pre,
            rest,
            k + 1,
            if peer is None {
                Some(rest[k])
            } else {
                peer
            },
            port,
        );
    }
}

proof fn lemma_port_preset(args: Seq<Seq<char>>, i: int, peer: Option<Seq<char>>, p: u16)
    requires
        0 <= i,
    ensures
        startup_args_from(args, i, peer, Some(p)) == with_default_port(
            startup_args_from(args, i, peer, None),
            p,
        ),
    decreases args.len() - i,
{
    if i < args.len() {
        if i + 1 < args.len() {
            lemma_port_preset(args, i + 2, Some(args[i + 1]), p);
            if let Some(q) = parse_u16(args[i + 1]) {
                lemma_port_preset(args, i + 2, peer, q);
            }
        }
        lemma_port_preset(
            args,
            i + 1,
            if peer is None {
                Some(args[i])
            } else {
                peer
            },
            p,
        );
    }
}

/// Law: the value after `--port` is a port and nothing else. Reading
/// `--port PORT` followed by any arguments gives what those arguments give
/// alone, with PORT as the port unless they set one; in particular
/// `--port PORT` alone gives no peer and that port.
pub proof fn lemma_port_value_is_not_peer(pt: Seq<char>, rest: Seq<Seq<char>>, p: u16)
    requires
        parse_u16(pt) == Some(p),
    ensures
        startup_args(seq!["--port"@, pt] + rest) == with_default_port(startup_args(rest), p),
        startup_args(seq!["--port"@, pt]) == Ok::<(Option<Seq<char>>, Option<u16>), Seq<char>>(
            (None, Some(p)),
        ),
{
    reveal_strlit("--port");
    reveal_strlit("--peer");
    let pre = seq!["--port"@, pt];
    let args = pre + rest;
    assert(args[0] == "--port"@);
    assert(args[1] == pt);
    assert("--port"@ != "--peer"@) by {
        assert("--port"@[3] != "--peer"@[3]);
    }
    lemma_args_shift(pre, rest, 0, None, Some(p));
    lemma_port_preset(rest, 0, None, p);
    assert(pre + Seq::<Seq<char>>::empty() =~= pre);
    lemma_port_preset(Seq::<Seq<char>>::empty(), 0, None, p);
    lemma_args_shift(pre, Seq::<Seq<char>>::empty(), 0, None, Some(p));
}

/// Law: the command line wins over the saved file: a port given on the
/// command line is the port used, whatever was saved, and the saved port is
/// used only when none is given; likewise for the peer.
pub proof fn lemma_command_line_wins(
    loaded: Option<AppConfigView>,
    peer: Option<Seq<char>>,
    port: Option<u16>,
)
    ensures
        port matches Some(p) ==> startup_config(loaded, peer, port).listen_port == Some(p),
        port is None ==> startup_config(loaded, peer, port).listen_port == (match loaded {
            Some(c) => c.listen_port,
            None => None,
        }),
        peer matches Some(a) ==> startup_config(loaded, peer, port).bootstrap_addr == Some(a),
        peer is None ==> startup_config(loaded, peer, port).bootstrap_addr == (match loaded {
            Some(c) => c.bootstrap_addr,
            None => None,
        }),
{
}

} // verus!

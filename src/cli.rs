//! The command-line grammar of the tool: global options, commands and
//! their subcommands, positional arguments and options, parsed from the
//! argument list into plain values.
use vstd::prelude::*;
use crate::text::{str_eq, views};
use crate::types::BucketStatus;

verus! {

/// Why an argument list was refused.
#[derive(Clone, Debug, PartialEq, Eq)]
pub struct CliError {
    pub message: String,
}

fn cli_error(what: &str, arg: &str) -> (r: CliError) {
    let mut message = String::from_str(what);
    message.append(arg);
    CliError { message }
}

/// An option of a command: long name, short letter if any, and whether
/// it takes a value (else it is a flag).
pub struct OptSpec {
    pub long: String,
    pub short: Option<char>,
    pub takes_value: bool,
}

fn opt(long: &str, short: Option<char>, takes_value: bool) -> (r: OptSpec)
    ensures
        r.long@ == long@,
        r.short == short,
        r.takes_value == takes_value,
{
    OptSpec { long: long.to_string(), short, takes_value }
}

/// A command's arguments sorted out: positionals in order, and for each
/// option the value given (the empty string for a flag that is present).
pub struct Scanned {
    pub positionals: Vec<String>,
    pub values: Vec<Option<String>>,
}

/// The index of the first option named `name`, from `j` on.
pub open spec fn long_from(specs: Seq<OptSpec>, name: Seq<char>, j: int) -> Option<int>
    decreases specs.len() - j,
{
    if j < 0 || j >= specs.len() {
        None
    } else if specs[j].long@ == name {
        Some(j)
    } else {
        long_from(specs, name, j + 1)
    }
}

/// The index of the first option with short letter `c`, from `j` on.
pub open spec fn short_from(specs: Seq<OptSpec>, c: char, j: int) -> Option<int>
    decreases specs.len() - j,
{
    if j < 0 || j >= specs.len() {
        None
    } else if specs[j].short == Some(c) {
        Some(j)
    } else {
        short_from(specs, c, j + 1)
    }
}

/// A token that names an option: a dash and at least one more character.
pub open spec fn is_option_token(tok: Seq<char>) -> bool {
    tok.len() >= 2 && tok[0] == '-'
}

/// The option that a token names: `--long` or `-s`.
pub open spec fn option_index(specs: Seq<OptSpec>, tok: Seq<char>) -> Option<int> {
    if tok[1] == '-' {
        long_from(specs, tok.subrange(2, tok.len() as int), 0)
    } else if tok.len() == 2 {
        short_from(specs, tok[1], 0)
    } else {
        None
    }
}

/// The model of a scan: positionals, and each option's value.
pub struct ScanView {
    pub positionals: Seq<Seq<char>>,
    pub values: Seq<Option<Seq<char>>>,
}

pub open spec fn scan_view(s: Scanned) -> ScanView {
    ScanView {
        positionals: views(s.positionals@),
        values: s.values@.map_values(|v: Option<String>| crate::auth::opt_text(v)),
    }
}

/// Scanning `args` from `i` on, with `acc` gathered so far; `None` for an
/// unknown option or an option that lacks its value.
pub open spec fn scan_from(args: Seq<Seq<char>>, i: int, specs: Seq<OptSpec>, acc: ScanView) -> Option<ScanView>
    decreases args.len() - i,
{
    if i < 0 || i >= args.len() {
        Some(acc)
    } else {
        let tok = args[i];
        if is_option_token(tok) {
            match option_index(specs, tok) {
                None => None,
                Some(j) => if specs[j].takes_value {
                    if i + 1 >= args.len() {
                        None
                    } else {
                        scan_from(
                            args,
                            i + 2,
                            specs,
                            ScanView { values: acc.values.update(j, Some(args[i + 1])), ..acc },
                        )
                    }
                } else {
                    scan_from(
                        args,
                        i + 1,
                        specs,
                        ScanView { values: acc.values.update(j, Some(Seq::empty())), ..acc },
                    )
                },
            }
        } else {
            scan_from(args, i + 1, specs, ScanView { positionals: acc.positionals.push(tok), ..acc })
        }
    }
}

/// Nothing gathered yet: no positionals, no option given.
pub open spec fn empty_scan(n: nat) -> ScanView {
    ScanView { positionals: Seq::empty(), values: Seq::new(n, |j: int| None::<Seq<char>>) }
}

fn find_long(specs: &Vec<OptSpec>, name: &str) -> (r: Option<usize>)
    ensures
        match r {
            Some(j) => j < specs.len() && long_from(specs@, name@, 0) == Some(j as int),
            None => long_from(specs@, name@, 0) is None,
        },
{
    let mut j: usize = 0;
    while j < specs.len()
        invariant
            j <= specs.len(),
            long_from(specs@, name@, 0) == long_from(specs@, name@, j as int),
        decreases specs.len() - j,
    {
        if str_eq(specs[j].long.as_str(), name) {
            return Some(j);
        }
        j = j + 1;
    }
    None
}

fn find_short(specs: &Vec<OptSpec>, c: char) -> (r: Option<usize>)
    ensures
        match r {
            Some(j) => j < specs.len() && short_from(specs@, c, 0) == Some(j as int),
            None => short_from(specs@, c, 0) is None,
        },
{
    let mut j: usize = 0;
    while j < specs.len()
        invariant
            j <= specs.len(),
            short_from(specs@, c, 0) == short_from(specs@, c, j as int),
        decreases specs.len() - j,
    {
        match specs[j].short {
            Some(s) => {
                if s == c {
                    return Some(j);
                }
            },
            None => {},
        }
        j = j + 1;
    }
    None
}

/// Sorts `args[from..]` into positionals and the options of `specs`:
/// `--long` or `-s`, followed by a value where the option takes one (the
/// last occurrence of an option counts).
pub fn scan(args: &Vec<String>, from: usize, specs: &Vec<OptSpec>) -> (r: Result<Scanned, CliError>)
    ensures
        match scan_from(views(args@), from as int, specs@, empty_scan(specs@.len())) {
            Some(v) => r matches Ok(s) && scan_view(s) == v && s.values.len() == specs.len(),
            None => r is Err,
        },
{
    let mut positionals: Vec<String> = Vec::new();
    let mut values: Vec<Option<String>> = Vec::new();
    let mut k: usize = 0;
    while k < specs.len()
        invariant
            k <= specs.len(),
            values.len() == k,
            forall|j: int| 0 <= j < k ==> values@[j] is None,
        decreases specs.len() - k,
    {
        values.push(None);
        k = k + 1;
    }
    let ghost a = views(args@);
    let ghost target = scan_from(a, from as int, specs@, empty_scan(specs@.len()));
    proof {
        let cur = scan_view(Scanned { positionals, values });
        assert(cur.positionals =~= empty_scan(specs@.len()).positionals);
        assert(cur.values =~= empty_scan(specs@.len()).values);
    }
    let mut i: usize = from;
    while i < args.len()
        invariant
            values.len() == specs.len(),
            a == views(args@),
            target == scan_from(a, from as int, specs@, empty_scan(specs@.len())),
            i >= from,
            target == scan_from(a, i as int, specs@, scan_view(Scanned { positionals, values })),
        decreases args.len() - i,
    {
        let ghost acc = scan_view(Scanned { positionals, values });
        let tok = args[i].as_str();
        let n = tok.unicode_len();
        assert(a[i as int] == tok@);
        if n >= 2 && tok.get_char(0) == '-' {
            let found = if tok.get_char(1) == '-' {
                find_long(specs, tok.substring_char(2, n))
            } else if n == 2 {
                find_short(specs, tok.get_char(1))
            } else {
                None
            };
            assert(found matches Some(j) ==> option_index(specs@, tok@) == Some(j as int));
            assert(found is None ==> option_index(specs@, tok@) is None);
            assert(is_option_token(a[i as int]));
            match found {
                None => {
                    return Err(cli_error("unexpected argument: ", tok));
                },
                Some(j) => {
                    if specs[j].takes_value {
                        if i + 1 >= args.len() {
                            return Err(cli_error("a value is required for ", tok));
                        }
                        let v = args[i + 1].clone();
                        values.set(j, Some(v));
                        proof {
                            assert(a[i + 1] == v@);
                            let now = scan_view(Scanned { positionals, values });
                            assert(now.values =~= acc.values.update(j as int, Some(a[i + 1])));
                            assert(now.positionals == acc.positionals);
                        }
                        i = i + 2;
                    } else {
                        values.set(j, Some(String::new()));
                        proof {
                            let now = scan_view(Scanned { positionals, values });
                            assert(now.values =~= acc.values.update(j as int, Some(Seq::<char>::empty())));
                            assert(now.positionals == acc.positionals);
                        }
                        i = i + 1;
                    }
                },
            }
        } else {
            let v = args[i].clone();
            positionals.push(v);
            proof {
                let now = scan_view(Scanned { positionals, values });
                assert(now.positionals =~= acc.positionals.push(a[i as int]));
                assert(now.values == acc.values);
            }
            i = i + 1;
        }
    }
    Ok(Scanned { positionals, values })
}

fn value_of(s: &Scanned, j: usize) -> (r: Option<String>)
    requires
        j < s.values.len(),
    ensures
        crate::auth::opt_text(r) == crate::auth::opt_text(s.values@[j as int]),
{
    match &s.values[j] {
        Some(v) => Some(v.clone()),
        None => None,
    }
}

fn flag_of(s: &Scanned, j: usize) -> (r: bool)
    requires
        j < s.values.len(),
    ensures
        r == (s.values@[j as int] is Some),
{
    s.values[j].is_some()
}

fn positional_of(s: &Scanned, k: usize) -> (r: Option<String>)
    ensures
        k < s.positionals.len() ==> r is Some && r->0@ == s.positionals@[k as int]@,
        k >= s.positionals.len() ==> r is None,
{
    if k < s.positionals.len() {
        Some(s.positionals[k].clone())
    } else {
        None
    }
}

fn required(s: &Scanned, k: usize, name: &str) -> (r: Result<String, CliError>)
    ensures
        k < s.positionals.len() ==> (r matches Ok(v) && v@ == s.positionals@[k as int]@),
        k >= s.positionals.len() ==> r is Err,
{
    match positional_of(s, k) {
        Some(v) => Ok(v),
        None => Err(cli_error("missing required argument: ", name)),
    }
}

fn at_most(s: &Scanned, count: usize) -> (r: Result<(), CliError>)
    ensures
        r is Ok <==> s.positionals.len() <= count,
{
    if s.positionals.len() > count {
        Err(cli_error("unexpected argument: ", s.positionals[count].as_str()))
    } else {
        Ok(())
    }
}

/// The value of a string of decimal digits.
pub open spec fn digits_value(s: Seq<char>) -> int
    decreases s.len(),
{
    if s.len() == 0 {
        0
    } else {
        digits_value(s.drop_last()) * 10 + (s.last() as int - '0' as int)
    }
}

pub open spec fn all_digits(s: Seq<char>) -> bool {
    forall|i: int| 0 <= i < s.len() ==> '0' <= #[trigger] s[i] <= '9'
}

/// A non-negative decimal number no larger than `max`.
pub fn parse_number(s: &str, max: u64) -> (r: Option<u64>)
    ensures
        r is Some <==> (s@.len() > 0 && all_digits(s@) && digits_value(s@) <= max),
        r matches Some(v) ==> v == digits_value(s@),
{
    let n = s.unicode_len();
    if n == 0 {
        return None;
    }
    let mut v: u64 = 0;
    let mut i: usize = 0;
    while i < n
        invariant
            n == s@.len(),
            i <= n,
            all_digits(s@.subrange(0, i as int)),
            v == digits_value(s@.subrange(0, i as int)),
            v <= max,
        decreases n - i,
    {
        let c = s.get_char(i);
        assert(s@.subrange(0, i + 1).drop_last() =~= s@.subrange(0, i as int));
        if !('0' <= c && c <= '9') {
            assert(!all_digits(s@)) by {
                assert(s@[i as int] == c);
            }
            return None;
        }
        let d = (c as u32 - '0' as u32) as u64;
        assert(digits_value(s@.subrange(0, i + 1)) == v * 10 + d);
        if d > max || v > (max - d) / 10 {
            proof {
                assert(v * 10 + d > max) by (nonlinear_arith)
                    requires
                        d > max || v > (max - d) / 10,
                        v >= 0,
                ;
                lemma_digits_value_grows(s@, i as int + 1);
            }
            return None;
        }
        assert(all_digits(s@.subrange(0, i + 1))) by {
            assert forall|k: int| 0 <= k < i + 1 implies '0' <= #[trigger] s@.subrange(0, i + 1)[k]
                <= '9' by {
                if k < i {
                    assert(s@.subrange(0, i + 1)[k] == s@.subrange(0, i as int)[k]);
                }
            }
        }
        v = v * 10 + d;
        i = i + 1;
    }
    assert(s@.subrange(0, n as int) =~= s@);
    Some(v)
}

/// A longer prefix of digits has at least the value of a shorter one.
proof fn lemma_digits_value_grows(s: Seq<char>, k: int)
    requires
        0 <= k <= s.len(),
    ensures
        all_digits(s) ==> digits_value(s) >= digits_value(s.subrange(0, k)),
    decreases s.len() - k,
{
    if k < s.len() && all_digits(s) {
        lemma_digits_value_grows(s, k + 1);
        assert(s.subrange(0, k + 1).drop_last() =~= s.subrange(0, k));
        assert(all_digits(s.subrange(0, k))) by {
            assert forall|j: int| 0 <= j < k implies '0' <= #[trigger] s.subrange(0, k)[j] <= '9' by {
                assert(s.subrange(0, k)[j] == s[j]);
            }
        }
        lemma_digits_value_nonneg(s.subrange(0, k));
        assert(s.subrange(0, k + 1).last() == s[k]);
    } else if k == s.len() {
        assert(s.subrange(0, k) =~= s);
    }
}

proof fn lemma_digits_value_nonneg(s: Seq<char>)
    requires
        all_digits(s),
    ensures
        digits_value(s) >= 0,
    decreases s.len(),
{
    if s.len() > 0 {
        assert(all_digits(s.drop_last())) by {
            assert forall|j: int| 0 <= j < s.len() - 1 implies '0' <= #[trigger] s.drop_last()[j]
                <= '9' by {
                assert(s.drop_last()[j] == s[j]);
            }
        }
        lemma_digits_value_nonneg(s.drop_last());
    }
}

fn number_arg(v: Option<String>, default: u64, max: u64, name: &str) -> (r: Result<u64, CliError>)
    ensures
        v is None ==> r == Ok::<u64, CliError>(default),
        r matches Ok(n) ==> n <= max || n == default,
{
    match v {
        None => Ok(default),
        Some(text) => match parse_number(text.as_str(), max) {
            Some(n) => Ok(n),
            None => Err(cli_error("invalid number for ", name)),
        },
    }
}

/// The pieces of `s` between commas, in order; one piece where there is
/// no comma.
pub open spec fn comma_pieces(s: Seq<char>) -> Seq<Seq<char>>
    decreases s.len(),
{
    if s.len() == 0 {
        seq![Seq::empty()]
    } else {
        let p = comma_pieces(s.drop_last());
        if s.last() == ',' {
            p.push(Seq::empty())
        } else {
            p.update(p.len() - 1, p.last().push(s.last()))
        }
    }
}

proof fn lemma_comma_pieces_nonempty(s: Seq<char>)
    ensures
        comma_pieces(s).len() >= 1,
    decreases s.len(),
{
    if s.len() > 0 {
        lemma_comma_pieces_nonempty(s.drop_last());
    }
}

/// The pieces of `s` between commas, in order.
pub fn split_commas(s: &str) -> (r: Vec<String>)
    ensures
        views(r@) == comma_pieces(s@),
{
    let n = s.unicode_len();
    let mut parts: Vec<String> = Vec::new();
    let mut begin: usize = 0;
    let mut i: usize = 0;
    proof {
        assert(s@.subrange(0, 0) =~= Seq::<char>::empty());
        assert(views(parts@).push(s@.subrange(0, 0)) =~= seq![Seq::<char>::empty()]);
    }
    while i < n
        invariant
            n == s@.len(),
            begin <= i <= n,
            views(parts@).push(s@.subrange(begin as int, i as int)) == comma_pieces(
                s@.subrange(0, i as int),
            ),
        decreases n - i,
    {
        proof {
            let pre = s@.subrange(0, i + 1);
            assert(pre.drop_last() =~= s@.subrange(0, i as int));
            assert(pre.last() == s@[i as int]);
            lemma_comma_pieces_nonempty(s@.subrange(0, i as int));
        }
        if s.get_char(i) == ',' {
            let ghost before = views(parts@);
            let ghost piece = s@.subrange(begin as int, i as int);
            parts.push(s.substring_char(begin, i).to_string());
            begin = i + 1;
            proof {
                assert(s@.subrange(begin as int, i + 1) =~= Seq::<char>::empty());
                assert(views(parts@) =~= before.push(piece));
            }
        } else {
            proof {
                assert(s@.subrange(begin as int, i + 1) =~= s@.subrange(begin as int, i as int).push(
                    s@[i as int],
                ));
            }
        }
        i = i + 1;
    }
    let ghost before = views(parts@);
    parts.push(s.substring_char(begin, n).to_string());
    proof {
        assert(s@.subrange(0, n as int) =~= s@);
        assert(views(parts@) =~= before.push(s@.subrange(begin as int, n as int)));
    }
    parts
}

fn list_arg(v: Option<String>) -> (r: Option<Vec<String>>)
    ensures
        r is Some <==> v is Some,
{
    match v {
        Some(text) => Some(split_commas(text.as_str())),
        None => None,
    }
}

fn text_or(v: Option<String>, default: &str) -> (r: String)
    ensures
        v is None ==> r@ == default@,
        v matches Some(t) ==> r@ == t@,
{
    match v {
        Some(t) => t,
        None => default.to_string(),
    }
}

/// Output format of command results.
#[derive(Clone, Copy, Debug, PartialEq, Eq, Structural)]
pub enum OutputFormat {
    Json,
    Table,
    Yaml,
}

/// The name of a format on the command line.
pub open spec fn format_name(f: OutputFormat) -> Seq<char> {
    match f {
        OutputFormat::Json => "json"@,
        OutputFormat::Table => "table"@,
        OutputFormat::Yaml => "yaml"@,
    }
}

impl OutputFormat {
    /// The format's name as written on the command line.
    pub fn to_string(&self) -> (r: String)
        ensures
            r@ == format_name(*self),
    {
        match self {
            OutputFormat::Json => String::from_str("json"),
            OutputFormat::Table => String::from_str("table"),
            OutputFormat::Yaml => String::from_str("yaml"),
        }
    }

    /// The format of a name, as `to_string` writes it.
    pub fn from_name(name: &str) -> (r: Option<OutputFormat>)
        ensures
            r matches Some(f) ==> format_name(f) == name@,
            r is None ==> name@ != "json"@ && name@ != "table"@ && name@ != "yaml"@,
    {
        if str_eq(name, "json") {
            Some(OutputFormat::Json)
        } else if str_eq(name, "table") {
            Some(OutputFormat::Table)
        } else if str_eq(name, "yaml") {
            Some(OutputFormat::Yaml)
        } else {
            None
        }
    }
}

/// Formats command results for display.
pub struct DefaultFormatter;

/// Field to sort bucket listings by.
#[derive(Clone, Copy, Debug, PartialEq, Eq, Structural)]
pub enum BucketSortField {
    Name,
    Created,
}

/// Direction of a sort.
#[derive(Clone, Copy, Debug, PartialEq, Eq, Structural)]
pub enum SortOrder {
    Asc,
    Desc,
}

/// Distance metric as named on the command line.
#[derive(Clone, Copy, Debug, PartialEq, Eq, Structural)]
pub enum DistanceMetricArg {
    Euclidean,
    Cosine,
}

impl DistanceMetricArg {
    pub fn to_metric(self) -> (r: crate::types::DistanceMetric)
        ensures
            self == DistanceMetricArg::Euclidean ==> r == crate::types::DistanceMetric::Euclidean,
            self == DistanceMetricArg::Cosine ==> r == crate::types::DistanceMetric::Cosine,
    {
        match self {
            DistanceMetricArg::Euclidean => crate::types::DistanceMetric::Euclidean,
            DistanceMetricArg::Cosine => crate::types::DistanceMetric::Cosine,
        }
    }
}

fn status_arg(v: Option<String>) -> (r: Result<Option<BucketStatus>, CliError>)
    ensures
        v is None ==> r == Ok::<Option<BucketStatus>, CliError>(None),
{
    match v {
        None => Ok(None),
        Some(t) => {
            let s = t.as_str();
            if str_eq(s, "creating") {
                Ok(Some(BucketStatus::Creating))
            } else if str_eq(s, "active") {
                Ok(Some(BucketStatus::Active))
            } else if str_eq(s, "deleting") {
                Ok(Some(BucketStatus::Deleting))
            } else if str_eq(s, "failed") {
                Ok(Some(BucketStatus::Failed))
            } else {
                Err(cli_error("invalid value for --status: ", s))
            }
        },
    }
}

fn sort_field_arg(v: Option<String>) -> (r: Result<BucketSortField, CliError>) {
    match v {
        None => Ok(BucketSortField::Name),
        Some(t) => {
            if str_eq(t.as_str(), "name") {
                Ok(BucketSortField::Name)
            } else if str_eq(t.as_str(), "created") {
                Ok(BucketSortField::Created)
            } else {
                Err(cli_error("invalid value for --sort-by: ", t.as_str()))
            }
        },
    }
}

fn sort_order_arg(v: Option<String>) -> (r: Result<SortOrder, CliError>) {
    match v {
        None => Ok(SortOrder::Asc),
        Some(t) => {
            if str_eq(t.as_str(), "asc") {
                Ok(SortOrder::Asc)
            } else if str_eq(t.as_str(), "desc") {
                Ok(SortOrder::Desc)
            } else {
                Err(cli_error("invalid value for --sort-order: ", t.as_str()))
            }
        },
    }
}

fn metric_arg(v: Option<String>) -> (r: Result<DistanceMetricArg, CliError>) {
    match v {
        None => Ok(DistanceMetricArg::Cosine),
        Some(t) => {
            if str_eq(t.as_str(), "cosine") {
                Ok(DistanceMetricArg::Cosine)
            } else if str_eq(t.as_str(), "euclidean") {
                Ok(DistanceMetricArg::Euclidean)
            } else {
                Err(cli_error("invalid value for --metric: ", t.as_str()))
            }
        },
    }
}

/// The subcommand name at `args[at]`, if there is one.
fn subcommand_name(args: &Vec<String>, at: usize) -> (r: Result<String, CliError>)
    ensures
        r is Ok <==> at < args.len(),
        r matches Ok(n) ==> n@ == args@[at as int]@,
{
    if at < args.len() {
        Ok(args[at].clone())
    } else {
        Err(cli_error("a subcommand is required", ""))
    }
}

fn unknown_subcommand(name: &str) -> (r: CliError) {
    cli_error("unrecognized subcommand: ", name)
}

/// Bucket operations.
#[derive(Clone, Debug, PartialEq, Eq)]
pub enum BucketSubcommands {
    Create { name: String, kms_key_id: Option<String>, tags: Option<Vec<String>> },
    List { max_results: u32, prefix: Option<String> },
    Query {
        pattern: Option<String>,
        name_contains: Option<String>,
        name_prefix: Option<String>,
        name_suffix: Option<String>,
        status: Option<BucketStatus>,
        created_after: Option<String>,
        created_before: Option<String>,
        encrypted: bool,
        sort_by: BucketSortField,
        sort_order: SortOrder,
        limit: Option<usize>,
    },
    Get { name: String },
    Delete { name: String, force: bool },
}

/// Scanning a single positional argument, with no options, keeps it.
proof fn lemma_one_positional(args: Seq<Seq<char>>, from: int, specs: Seq<OptSpec>)
    requires
        args.len() == from + 1,
        0 <= from,
        !is_option_token(args[from]),
    ensures
        scan_from(args, from, specs, empty_scan(specs.len())) == Some(
            ScanView { positionals: seq![args[from]], values: empty_scan(specs.len()).values },
        ),
{
    let e = empty_scan(specs.len());
    let acc = ScanView { positionals: e.positionals.push(args[from]), ..e };
    assert(e.positionals.push(args[from]) =~= seq![args[from]]);
    assert(scan_from(args, from + 1, specs, acc) == Some(acc));
}

/// Scanning tokens none of which names an option keeps them all as
/// positionals and sets no option.
proof fn lemma_plain_scan(args: Seq<Seq<char>>, i: int, specs: Seq<OptSpec>, acc: ScanView)
    requires
        0 <= i <= args.len(),
        forall|k: int| i <= k < args.len() ==> !is_option_token(#[trigger] args[k]),
    ensures
        scan_from(args, i, specs, acc) == Some(
            ScanView { positionals: acc.positionals + args.subrange(i, args.len() as int), values: acc.values },
        ),
    decreases args.len() - i,
{
    if i < args.len() {
        let next = ScanView { positionals: acc.positionals.push(args[i]), ..acc };
        lemma_plain_scan(args, i + 1, specs, next);
        assert(next.positionals + args.subrange(i + 1, args.len() as int) =~= acc.positionals
            + args.subrange(i, args.len() as int));
    } else {
        assert(acc.positionals + args.subrange(i, args.len() as int) =~= acc.positionals);
    }
}

/// No token of `args` from `from` on names an option.
pub open spec fn plain_from(args: Seq<String>, from: int) -> bool {
    forall|k: int| from <= k < args.len() ==> !is_option_token(#[trigger] args[k]@)
}

/// Where no token from `from` on names an option, a scan returns them all
/// as positionals and sets no option.
proof fn plain_scan(args: &Vec<String>, from: usize, specs: Seq<OptSpec>)
    ensures
        from <= args.len() && plain_from(args@, from as int) ==> scan_from(
            views(args@),
            from as int,
            specs,
            empty_scan(specs.len()),
        ) == Some(
            ScanView {
                positionals: views(args@).subrange(from as int, args.len() as int),
                values: empty_scan(specs.len()).values,
            },
        ),
{
    if from <= args.len() && plain_from(args@, from as int) {
        let a = views(args@);
        assert forall|k: int| from <= k < a.len() implies !is_option_token(#[trigger] a[k]) by {
            assert(a[k] == args@[k]@);
        }
        let e = empty_scan(specs.len());
        lemma_plain_scan(a, from as int, specs, e);
        assert(e.positionals + a.subrange(from as int, a.len() as int) =~= a.subrange(
            from as int,
            a.len() as int,
        ));
    }
}

proof fn one_positional_scan(args: &Vec<String>, at: usize, from: usize, specs: Seq<OptSpec>)
    requires
        from == at + 1,
    ensures
        args.len() == at + 2 && !is_option_token(args@[at + 1]@) ==> scan_from(
            views(args@),
            from as int,
            specs,
            empty_scan(specs.len()),
        ) == Some(
            ScanView { positionals: seq![args@[at + 1]@], values: empty_scan(specs.len()).values },
        ),
{
    if args.len() == at + 2 && !is_option_token(args@[at + 1]@) {
        lemma_one_positional(views(args@), from as int, specs);
    }
}

/// The word that names a subcommand on the command line.
pub open spec fn bucket_subcommand_name(c: BucketSubcommands) -> Seq<char> {
    match c {
        BucketSubcommands::Create { .. } => "create"@,
        BucketSubcommands::List { .. } => "list"@,
        BucketSubcommands::Query { .. } => "query"@,
        BucketSubcommands::Get { .. } => "get"@,
        BucketSubcommands::Delete { .. } => "delete"@,
    }
}

impl BucketSubcommands {
    /// Parses `args[0]` (the program), `args[1]` (the subcommand) and its
    /// arguments.
    pub fn try_parse_from(args: &Vec<String>) -> (r: Result<Self, CliError>)
        ensures
            r matches Ok(c) ==> args.len() >= 2 && args@[1]@ == bucket_subcommand_name(c),
            args.len() == 3 && args@[1]@ == "get"@ && !is_option_token(args@[2]@) ==> (r matches Ok(
                BucketSubcommands::Get { name },
            ) && name@ == args@[2]@),
    {
        Self::parse_at(args, 1)
    }

    fn parse_at(args: &Vec<String>, at: usize) -> (r: Result<Self, CliError>)
        ensures
            r matches Ok(c) ==> at < args.len() && args@[at as int]@ == bucket_subcommand_name(c),
            args.len() == at + 2 && args@[at as int]@ == "get"@ && !is_option_token(
                args@[at + 1]@,
            ) ==> (r matches Ok(BucketSubcommands::Get { name }) && name@ == args@[at + 1]@),
    {
        proof {
            reveal_strlit("create");
            reveal_strlit("list");
            reveal_strlit("query");
            reveal_strlit("get");
            assert("get"@ != "create"@) by {
                assert("get"@.len() != "create"@.len());
            }
            assert("get"@ != "list"@) by {
                assert("get"@.len() != "list"@.len());
            }
            assert("get"@ != "query"@) by {
                assert("get"@.len() != "query"@.len());
            }
        }
        let name = subcommand_name(args, at)?;
        let from = at + 1;
        let sub = name.as_str();
        if str_eq(sub, "create") {
            let specs = vec![opt("kms-key-id", None, true), opt("tags", None, true)];
            let s = scan(args, from, &specs)?;
            at_most(&s, 1)?;
            Ok(BucketSubcommands::Create {
                name: required(&s, 0, "NAME")?,
                kms_key_id: value_of(&s, 0),
                tags: list_arg(value_of(&s, 1)),
            })
        } else if str_eq(sub, "list") {
            let specs = vec![opt("max-results", Some('m'), true), opt("prefix", None, true)];
            let s = scan(args, from, &specs)?;
            at_most(&s, 0)?;
            Ok(BucketSubcommands::List {
                max_results: number_arg(value_of(&s, 0), 100, 0xffff_ffff, "--max-results")? as u32,
                prefix: value_of(&s, 1),
            })
        } else if str_eq(sub, "query") {
            let specs = vec![
                opt("name-contains", None, true),
                opt("name-prefix", None, true),
                opt("name-suffix", None, true),
                opt("status", None, true),
                opt("created-after", None, true),
                opt("created-before", None, true),
                opt("encrypted", None, false),
                opt("sort-by", None, true),
                opt("sort-order", None, true),
                opt("limit", None, true),
            ];
            let s = scan(args, from, &specs)?;
            at_most(&s, 1)?;
            let limit = match value_of(&s, 9) {
                None => None,
                Some(t) => Some(number_arg(Some(t), 0, 0xffff_ffff, "--limit")? as usize),
            };
            Ok(BucketSubcommands::Query {
                pattern: positional_of(&s, 0),
                name_contains: value_of(&s, 0),
                name_prefix: value_of(&s, 1),
                name_suffix: value_of(&s, 2),
                status: status_arg(value_of(&s, 3))?,
                created_after: value_of(&s, 4),
                created_before: value_of(&s, 5),
                encrypted: flag_of(&s, 6),
                sort_by: sort_field_arg(value_of(&s, 7))?,
                sort_order: sort_order_arg(value_of(&s, 8))?,
                limit,
            })
        } else if str_eq(sub, "get") {
            let specs: Vec<OptSpec> = Vec::new();
            proof {
                one_positional_scan(args, at, from, specs@);
            }
            let s = scan(args, from, &specs)?;
            proof {
                let single = args.len() == at + 2 && !is_option_token(args@[at + 1]@);
                assert(single ==> s.positionals@.len() == 1 && s.positionals@[0]@ == args@[at + 1]@)
                    by {
                    if single {
                        assert(views(s.positionals@) == seq![args@[at + 1]@]);
                        assert(views(s.positionals@)[0] == s.positionals@[0]@);
                    }
                }
            }
            at_most(&s, 1)?;
            Ok(BucketSubcommands::Get { name: required(&s, 0, "NAME")? })
        } else if str_eq(sub, "delete") {
            let specs = vec![opt("force", None, false)];
            let s = scan(args, from, &specs)?;
            at_most(&s, 1)?;
            Ok(BucketSubcommands::Delete { name: required(&s, 0, "NAME")?, force: flag_of(&s, 0) })
        } else {
            Err(unknown_subcommand(sub))
        }
    }
}

/// The `bucket` command.
#[derive(Clone, Debug, PartialEq, Eq)]
pub struct BucketCommand {
    pub command: BucketSubcommands,
}

/// Index operations.
#[derive(Clone, Debug, PartialEq, Eq)]
pub enum IndexSubcommands {
    Create {
        bucket: String,
        name: String,
        dimensions: u32,
        metric: DistanceMetricArg,
        metadata_config: Option<String>,
    },
    List { bucket: String, max_results: u32, prefix: Option<String>, query: Option<String> },
    Get { bucket: String, name: String },
    Delete { bucket: String, name: String, force: bool },
}

/// The word that names a subcommand on the command line.
pub open spec fn index_subcommand_name(c: IndexSubcommands) -> Seq<char> {
    match c {
        IndexSubcommands::Create { .. } => "create"@,
        IndexSubcommands::List { .. } => "list"@,
        IndexSubcommands::Get { .. } => "get"@,
        IndexSubcommands::Delete { .. } => "delete"@,
    }
}

impl IndexSubcommands {
    /// Parses `args[0]` (the program), `args[1]` (the subcommand) and its
    /// arguments.
    pub fn try_parse_from(args: &Vec<String>) -> (r: Result<Self, CliError>)
        ensures
            r matches Ok(c) ==> args.len() >= 2 && args@[1]@ == index_subcommand_name(c),
            args.len() == 4 && args@[1]@ == "get"@ && plain_from(args@, 2) ==> (r matches Ok(
                IndexSubcommands::Get { bucket, name },
            ) && bucket@ == args@[2]@ && name@ == args@[3]@),
    {
        Self::parse_at(args, 1)
    }

    fn parse_at(args: &Vec<String>, at: usize) -> (r: Result<Self, CliError>)
        ensures
            r matches Ok(c) ==> at < args.len() && args@[at as int]@ == index_subcommand_name(c),
            args.len() == at + 3 && args@[at as int]@ == "get"@ && plain_from(args@, at + 1) ==> (
            r matches Ok(IndexSubcommands::Get { bucket, name }) && bucket@ == args@[at + 1]@
                && name@ == args@[at + 2]@),
    {
        proof {
            reveal_strlit("create");
            reveal_strlit("list");
            reveal_strlit("get");
            assert("get"@.len() != "create"@.len() && "get"@.len() != "list"@.len());
        }
        let name = subcommand_name(args, at)?;
        let from = at + 1;
        let sub = name.as_str();
        if str_eq(sub, "create") {
            let specs = vec![
                opt("dimensions", Some('d'), true),
                opt("metric", Some('m'), true),
                opt("metadata-config", None, true),
            ];
            let s = scan(args, from, &specs)?;
            at_most(&s, 2)?;
            let dimensions = match value_of(&s, 0) {
                Some(t) => number_arg(Some(t), 0, 0xffff_ffff, "--dimensions")? as u32,
                None => {
                    return Err(cli_error("missing required argument: ", "--dimensions"));
                },
            };
            Ok(IndexSubcommands::Create {
                bucket: required(&s, 0, "BUCKET")?,
                name: required(&s, 1, "NAME")?,
                dimensions,
                metric: metric_arg(value_of(&s, 1))?,
                metadata_config: value_of(&s, 2),
            })
        } else if str_eq(sub, "list") {
            let specs = vec![
                opt("max-results", Some('m'), true),
                opt("prefix", None, true),
                opt("query", Some('q'), true),
            ];
            let s = scan(args, from, &specs)?;
            at_most(&s, 1)?;
            Ok(IndexSubcommands::List {
                bucket: required(&s, 0, "BUCKET")?,
                max_results: number_arg(value_of(&s, 0), 100, 0xffff_ffff, "--max-results")? as u32,
                prefix: value_of(&s, 1),
                query: value_of(&s, 2),
            })
        } else if str_eq(sub, "get") {
            let specs: Vec<OptSpec> = Vec::new();
            proof {
                plain_scan(args, from, specs@);
            }
            let s = scan(args, from, &specs)?;
            proof {
                let c = args.len() == at + 3 && plain_from(args@, from as int);
                assert(c ==> s.positionals@.len() == 2 && s.positionals@[0]@ == args@[at + 1]@
                    && s.positionals@[1]@ == args@[at + 2]@) by {
                    if c {
                        assert(views(s.positionals@) == views(args@).subrange(from as int, args.len() as int));
                        assert(views(s.positionals@)[0] == s.positionals@[0]@);
                        assert(views(s.positionals@)[1] == s.positionals@[1]@);
                    }
                }
            }
            at_most(&s, 2)?;
            Ok(IndexSubcommands::Get {
                bucket: required(&s, 0, "BUCKET")?,
                name: required(&s, 1, "NAME")?,
            })
        } else if str_eq(sub, "delete") {
            let specs = vec![opt("force", None, false)];
            let s = scan(args, from, &specs)?;
            at_most(&s, 2)?;
            Ok(IndexSubcommands::Delete {
                bucket: required(&s, 0, "BUCKET")?,
                name: required(&s, 1, "NAME")?,
                force: flag_of(&s, 0),
            })
        } else {
            Err(unknown_subcommand(sub))
        }
    }
}

/// The `index` command.
#[derive(Clone, Debug, PartialEq, Eq)]
pub struct IndexCommand {
    pub command: IndexSubcommands,
}

/// Vector operations.
#[derive(Clone, Debug, PartialEq, Eq)]
pub enum VectorSubcommands {
    Put {
        bucket: String,
        index: String,
        key: String,
        data: String,
        metadata: Option<String>,
        file: Option<String>,
    },
    Get { bucket: String, index: String, keys: Vec<String>, include_data: bool, include_metadata: bool },
    List { bucket: String, index: String, max_results: u32, include_data: bool, include_metadata: bool },
    Delete { bucket: String, index: String, keys: Vec<String>, force: bool },
    Query {
        bucket: String,
        index: String,
        vector: String,
        top_k: u32,
        filter: Option<String>,
        include_distance: bool,
        include_metadata: bool,
    },
}

/// Keys given as positionals from `first` on, each split at commas.
fn keys_from(s: &Scanned, first: usize) -> (r: Vec<String>) {
    let mut keys: Vec<String> = Vec::new();
    let mut k: usize = first;
    while k < s.positionals.len()
        decreases s.positionals.len() - k,
    {
        let mut parts = split_commas(s.positionals[k].as_str());
        keys.append(&mut parts);
        k = k + 1;
    }
    keys
}

/// The word that names a subcommand on the command line.
pub open spec fn vector_subcommand_name(c: VectorSubcommands) -> Seq<char> {
    match c {
        VectorSubcommands::Put { .. } => "put"@,
        VectorSubcommands::Get { .. } => "get"@,
        VectorSubcommands::List { .. } => "list"@,
        VectorSubcommands::Delete { .. } => "delete"@,
        VectorSubcommands::Query { .. } => "query"@,
    }
}

impl VectorSubcommands {
    /// Parses `args[0]` (the program), `args[1]` (the subcommand) and its
    /// arguments.
    pub fn try_parse_from(args: &Vec<String>) -> (r: Result<Self, CliError>)
        ensures
            r matches Ok(c) ==> args.len() >= 2 && args@[1]@ == vector_subcommand_name(c),
            args.len() == 4 && args@[1]@ == "list"@ && plain_from(args@, 2) ==> (r matches Ok(
                VectorSubcommands::List { bucket, index, max_results, include_data, include_metadata },
            ) && bucket@ == args@[2]@ && index@ == args@[3]@ && max_results == 100 && !include_data
                && !include_metadata),
    {
        Self::parse_at(args, 1)
    }

    fn parse_at(args: &Vec<String>, at: usize) -> (r: Result<Self, CliError>)
        ensures
            r matches Ok(c) ==> at < args.len() && args@[at as int]@ == vector_subcommand_name(c),
            args.len() == at + 3 && args@[at as int]@ == "list"@ && plain_from(args@, at + 1) ==> (
            r matches Ok(
                VectorSubcommands::List { bucket, index, max_results, include_data, include_metadata },
            ) && bucket@ == args@[at + 1]@ && index@ == args@[at + 2]@ && max_results == 100
                && !include_data && !include_metadata),
    {
        proof {
            reveal_strlit("put");
            reveal_strlit("get");
            reveal_strlit("list");
            assert("list"@.len() != "put"@.len() && "list"@.len() != "get"@.len());
        }
        let name = subcommand_name(args, at)?;
        let from = at + 1;
        let sub = name.as_str();
        if str_eq(sub, "put") {
            let specs = vec![
                opt("data", Some('d'), true),
                opt("metadata", Some('m'), true),
                opt("file", Some('f'), true),
            ];
            let s = scan(args, from, &specs)?;
            at_most(&s, 3)?;
            let data = match value_of(&s, 0) {
                Some(d) => d,
                None => {
                    return Err(cli_error("missing required argument: ", "--data"));
                },
            };
            Ok(VectorSubcommands::Put {
                bucket: required(&s, 0, "BUCKET")?,
                index: required(&s, 1, "INDEX")?,
                key: required(&s, 2, "KEY")?,
                data,
                metadata: value_of(&s, 1),
                file: value_of(&s, 2),
            })
        } else if str_eq(sub, "get") {
            let specs = vec![opt("include-data", None, false), opt("include-metadata", None, false)];
            let s = scan(args, from, &specs)?;
            Ok(VectorSubcommands::Get {
                bucket: required(&s, 0, "BUCKET")?,
                index: required(&s, 1, "INDEX")?,
                keys: keys_from(&s, 2),
                include_data: flag_of(&s, 0),
                include_metadata: flag_of(&s, 1),
            })
        } else if str_eq(sub, "list") {
            let specs = vec![
                opt("max-results", Some('m'), true),
                opt("include-data", None, false),
                opt("include-metadata", None, false),
            ];
            proof {
                plain_scan(args, from, specs@);
            }
            let s = scan(args, from, &specs)?;
            proof {
                let c = args.len() == at + 3 && plain_from(args@, from as int);
                assert(c ==> s.positionals@.len() == 2 && s.positionals@[0]@ == args@[at + 1]@
                    && s.positionals@[1]@ == args@[at + 2]@ && s.values@[0] is None
                    && s.values@[1] is None && s.values@[2] is None) by {
                    if c {
                        let v = scan_view(s);
                        assert(v.positionals == views(args@).subrange(from as int, args.len() as int));
                        assert(views(s.positionals@)[0] == s.positionals@[0]@);
                        assert(views(s.positionals@)[1] == s.positionals@[1]@);
                        assert(v.values == empty_scan(3).values);
                        assert(v.values[0] == crate::auth::opt_text(s.values@[0]));
                        assert(v.values[1] == crate::auth::opt_text(s.values@[1]));
                        assert(v.values[2] == crate::auth::opt_text(s.values@[2]));
                        assert(empty_scan(3).values[0] == None::<Seq<char>>);
                        assert(empty_scan(3).values[1] == None::<Seq<char>>);
                        assert(empty_scan(3).values[2] == None::<Seq<char>>);
                    }
                }
            }
            at_most(&s, 2)?;
            Ok(VectorSubcommands::List {
                bucket: required(&s, 0, "BUCKET")?,
                index: required(&s, 1, "INDEX")?,
                max_results: number_arg(value_of(&s, 0), 100, 0xffff_ffff, "--max-results")? as u32,
                include_data: flag_of(&s, 1),
                include_metadata: flag_of(&s, 2),
            })
        } else if str_eq(sub, "delete") {
            let specs = vec![opt("force", None, false)];
            let s = scan(args, from, &specs)?;
            Ok(VectorSubcommands::Delete {
                bucket: required(&s, 0, "BUCKET")?,
                index: required(&s, 1, "INDEX")?,
                keys: keys_from(&s, 2),
                force: flag_of(&s, 0),
            })
        } else if str_eq(sub, "query") {
            let specs = vec![
                opt("vector", Some('q'), true),
                opt("top-k", Some('t'), true),
                opt("filter", Some('f'), true),
                opt("include-distance", None, false),
                opt("include-metadata", None, false),
            ];
            let s = scan(args, from, &specs)?;
            at_most(&s, 2)?;
            let vector = match value_of(&s, 0) {
                Some(v) => v,
                None => {
                    return Err(cli_error("missing required argument: ", "--vector"));
                },
            };
            Ok(VectorSubcommands::Query {
                bucket: required(&s, 0, "BUCKET")?,
                index: required(&s, 1, "INDEX")?,
                vector,
                top_k: number_arg(value_of(&s, 1), 10, 0xffff_ffff, "--top-k")? as u32,
                filter: value_of(&s, 2),
                include_distance: flag_of(&s, 3),
                include_metadata: flag_of(&s, 4),
            })
        } else {
            Err(unknown_subcommand(sub))
        }
    }
}

/// The `vector` command.
#[derive(Clone, Debug, PartialEq, Eq)]
pub struct VectorCommand {
    pub command: VectorSubcommands,
}

/// Bucket policy operations.
#[derive(Clone, Debug, PartialEq, Eq)]
pub enum PolicySubcommands {
    Put { bucket: String, policy: Option<String>, file: Option<String> },
    Get { bucket: String },
    Delete { bucket: String, force: bool },
}

/// The word that names a subcommand on the command line.
pub open spec fn policy_subcommand_name(c: PolicySubcommands) -> Seq<char> {
    match c {
        PolicySubcommands::Put { .. } => "put"@,
        PolicySubcommands::Get { .. } => "get"@,
        PolicySubcommands::Delete { .. } => "delete"@,
    }
}

impl PolicySubcommands {
    /// Parses `args[0]` (the program), `args[1]` (the subcommand) and its
    /// arguments.
    pub fn try_parse_from(args: &Vec<String>) -> (r: Result<Self, CliError>)
        ensures
            r matches Ok(c) ==> args.len() >= 2 && args@[1]@ == policy_subcommand_name(c),
            args.len() == 3 && args@[1]@ == "get"@ && plain_from(args@, 2) ==> (r matches Ok(
                PolicySubcommands::Get { bucket },
            ) && bucket@ == args@[2]@),
    {
        Self::parse_at(args, 1)
    }

    fn parse_at(args: &Vec<String>, at: usize) -> (r: Result<Self, CliError>)
        ensures
            r matches Ok(c) ==> at < args.len() && args@[at as int]@ == policy_subcommand_name(c),
            args.len() == at + 2 && args@[at as int]@ == "get"@ && plain_from(args@, at + 1) ==> (
            r matches Ok(PolicySubcommands::Get { bucket }) && bucket@ == args@[at + 1]@),
    {
        proof {
            reveal_strlit("put");
            reveal_strlit("get");
            assert("get"@[0] != "put"@[0]);
        }
        let name = subcommand_name(args, at)?;
        let from = at + 1;
        let sub = name.as_str();
        if str_eq(sub, "put") {
            let specs = vec![opt("policy", Some('p'), true), opt("file", Some('f'), true)];
            let s = scan(args, from, &specs)?;
            at_most(&s, 1)?;
            Ok(PolicySubcommands::Put {
                bucket: required(&s, 0, "BUCKET")?,
                policy: value_of(&s, 0),
                file: value_of(&s, 1),
            })
        } else if str_eq(sub, "get") {
            let specs: Vec<OptSpec> = Vec::new();
            proof {
                plain_scan(args, from, specs@);
            }
            let s = scan(args, from, &specs)?;
            proof {
                let c = args.len() == at + 2 && plain_from(args@, from as int);
                assert(c ==> s.positionals@.len() == 1 && s.positionals@[0]@ == args@[at + 1]@) by {
                    if c {
                        assert(views(s.positionals@) == views(args@).subrange(from as int, args.len() as int));
                        assert(views(s.positionals@)[0] == s.positionals@[0]@);
                    }
                }
            }
            at_most(&s, 1)?;
            Ok(PolicySubcommands::Get { bucket: required(&s, 0, "BUCKET")? })
        } else if str_eq(sub, "delete") {
            let specs = vec![opt("force", None, false)];
            let s = scan(args, from, &specs)?;
            at_most(&s, 1)?;
            Ok(PolicySubcommands::Delete { bucket: required(&s, 0, "BUCKET")?, force: flag_of(&s, 0) })
        } else {
            Err(unknown_subcommand(sub))
        }
    }
}

/// The `policy` command.
#[derive(Clone, Debug, PartialEq, Eq)]
pub struct PolicyCommand {
    pub command: PolicySubcommands,
}

/// Operations of the retrieval pipeline.
#[derive(Clone, Debug, PartialEq, Eq)]
pub enum RagSubcommands {
    Init { bucket: String, index: String },
    Ingest { directory: String, bucket: String, index: String },
    Query { query: String, top_k: u32, bucket: String, index: String },
    Interactive { bucket: String, index: String },
}

/// The word that names a subcommand on the command line.
pub open spec fn rag_subcommand_name(c: RagSubcommands) -> Seq<char> {
    match c {
        RagSubcommands::Init { .. } => "init"@,
        RagSubcommands::Ingest { .. } => "ingest"@,
        RagSubcommands::Query { .. } => "query"@,
        RagSubcommands::Interactive { .. } => "interactive"@,
    }
}

impl RagSubcommands {
    /// Parses `args[0]` (the program), `args[1]` (the subcommand) and its
    /// arguments.
    pub fn try_parse_from(args: &Vec<String>) -> (r: Result<Self, CliError>)
        ensures
            r matches Ok(c) ==> args.len() >= 2 && args@[1]@ == rag_subcommand_name(c),
            args.len() == 2 && args@[1]@ == "init"@ ==> (r matches Ok(
                RagSubcommands::Init { bucket, index },
            ) && bucket@ == "rag-vectors-default"@ && index@ == "documents-default"@),
    {
        Self::parse_at(args, 1)
    }

    fn parse_at(args: &Vec<String>, at: usize) -> (r: Result<Self, CliError>)
        ensures
            r matches Ok(c) ==> at < args.len() && args@[at as int]@ == rag_subcommand_name(c),
            args.len() == at + 1 && args@[at as int]@ == "init"@ ==> (r matches Ok(
                RagSubcommands::Init { bucket, index },
            ) && bucket@ == "rag-vectors-default"@ && index@ == "documents-default"@),
    {
        let name = subcommand_name(args, at)?;
        let from = at + 1;
        let sub = name.as_str();
        if str_eq(sub, "init") || str_eq(sub, "interactive") {
            let specs = vec![opt("bucket", Some('b'), true), opt("index", Some('i'), true)];
            proof {
                plain_scan(args, from, specs@);
            }
            let s = scan(args, from, &specs)?;
            proof {
                let c = args.len() == at + 1;
                assert(c ==> s.positionals@.len() == 0 && s.values@[0] is None && s.values@[1] is None)
                    by {
                    if c {
                        let v = scan_view(s);
                        assert(v.positionals == views(args@).subrange(from as int, args.len() as int));
                        assert(v.values == empty_scan(2).values);
                        assert(v.values[0] == crate::auth::opt_text(s.values@[0]));
                        assert(v.values[1] == crate::auth::opt_text(s.values@[1]));
                        assert(empty_scan(2).values[0] == None::<Seq<char>>);
                        assert(empty_scan(2).values[1] == None::<Seq<char>>);
                        assert(views(s.positionals@).len() == 0);
                    }
                }
            }
            at_most(&s, 0)?;
            let bucket = text_or(value_of(&s, 0), "rag-vectors-default");
            let index = text_or(value_of(&s, 1), "documents-default");
            if str_eq(sub, "init") {
                Ok(RagSubcommands::Init { bucket, index })
            } else {
                Ok(RagSubcommands::Interactive { bucket, index })
            }
        } else if str_eq(sub, "ingest") {
            let specs = vec![
                opt("directory", Some('d'), true),
                opt("bucket", Some('b'), true),
                opt("index", Some('i'), true),
            ];
            let s = scan(args, from, &specs)?;
            at_most(&s, 0)?;
            let directory = match value_of(&s, 0) {
                Some(d) => d,
                None => {
                    return Err(cli_error("missing required argument: ", "--directory"));
                },
            };
            Ok(RagSubcommands::Ingest {
                directory,
                bucket: text_or(value_of(&s, 1), "rag-vectors-default"),
                index: text_or(value_of(&s, 2), "documents-default"),
            })
        } else if str_eq(sub, "query") {
            let specs = vec![
                opt("top-k", Some('t'), true),
                opt("bucket", Some('b'), true),
                opt("index", Some('i'), true),
            ];
            let s = scan(args, from, &specs)?;
            at_most(&s, 1)?;
            Ok(RagSubcommands::Query {
                query: required(&s, 0, "QUERY")?,
                top_k: number_arg(value_of(&s, 0), 5, 0xffff_ffff, "--top-k")? as u32,
                bucket: text_or(value_of(&s, 1), "rag-vectors-default"),
                index: text_or(value_of(&s, 2), "documents-default"),
            })
        } else {
            Err(unknown_subcommand(sub))
        }
    }
}

/// The `rag` command.
#[derive(Clone, Debug, PartialEq, Eq)]
pub struct RagCommand {
    pub command: RagSubcommands,
}

/// The `init` command: interactive credential setup.
#[derive(Clone, Debug, PartialEq, Eq)]
pub struct InitCommand;

/// The `install-models` command.
#[derive(Clone, Debug, PartialEq, Eq)]
pub struct InstallModelsCommand {
    pub model_dir: String,
    pub force: bool,
    pub verify: bool,
    pub model: String,
}

/// The tool's commands.
#[derive(Clone, Debug, PartialEq, Eq)]
pub enum Commands {
    Init(InitCommand),
    InstallModels(InstallModelsCommand),
    Bucket(BucketCommand),
    Index(IndexCommand),
    Vector(VectorCommand),
    Policy(PolicyCommand),
    Rag(RagCommand),
}

/// A parsed command line.
#[derive(Clone, Debug, PartialEq, Eq)]
pub struct Cli {
    pub command: Option<Commands>,
    pub region: String,
    pub profile: Option<String>,
    pub output: OutputFormat,
    pub no_verify_ssl: bool,
    pub verbose: bool,
}

impl Cli {
    /// Parses a whole command line: `args[0]` is the program, then global
    /// options, then the command and its arguments.  `env_region` and
    /// `env_profile` are the values of `AWS_REGION` and `AWS_PROFILE`, used
    /// where the options are absent; the region defaults to `us-east-1`.
    pub fn try_parse_from(args: &Vec<String>, env_region: Option<String>, env_profile: Option<String>) -> (r:
        Result<Cli, CliError>)
        ensures
            args.len() <= 1 ==> (r matches Ok(c) && c.command is None && c.region@ == match env_region {
                Some(e) => e@,
                None => "us-east-1"@,
            } && crate::auth::opt_text(c.profile) == crate::auth::opt_text(env_profile) && c.output
                == OutputFormat::Table && !c.no_verify_ssl && !c.verbose),
    {
        let ghost start_profile = crate::auth::opt_text(env_profile);
        let mut region = match env_region {
            Some(r) => r,
            None => String::from_str("us-east-1"),
        };
        let ghost start_region = region@;
        let mut profile = env_profile;
        let mut output = OutputFormat::Table;
        let mut no_verify_ssl = false;
        let mut verbose = false;
        let mut i: usize = 1;
        let mut at_command = false;
        while !at_command && i < args.len()
            invariant
                i >= 1,
                args.len() <= 1 ==> i >= args.len(),
                args.len() <= 1 ==> (region@ == start_region && crate::auth::opt_text(profile)
                    == start_profile && output == OutputFormat::Table && !no_verify_ssl && !verbose),
            decreases args.len() - i + (if at_command { 0int } else { 1int }),
        {
            let tok = args[i].as_str();
            let takes_value = str_eq(tok, "--region") || str_eq(tok, "-r") || str_eq(tok, "--profile")
                || str_eq(tok, "-p") || str_eq(tok, "--output") || str_eq(tok, "-o");
            if takes_value {
                if i + 1 >= args.len() {
                    return Err(cli_error("a value is required for ", tok));
                }
                let v = args[i + 1].clone();
                if str_eq(tok, "--region") || str_eq(tok, "-r") {
                    region = v;
                } else if str_eq(tok, "--profile") || str_eq(tok, "-p") {
                    profile = Some(v);
                } else {
                    output = match OutputFormat::from_name(v.as_str()) {
                        Some(f) => f,
                        None => {
                            return Err(cli_error("invalid value for --output: ", v.as_str()));
                        },
                    };
                }
                i = i + 2;
            } else if str_eq(tok, "--no-verify-ssl") {
                no_verify_ssl = true;
                i = i + 1;
            } else if str_eq(tok, "--verbose") || str_eq(tok, "-v") {
                verbose = true;
                i = i + 1;
            } else {
                at_command = true;
            }
        }
        let command = if i < args.len() {
            Some(parse_command(args, i)?)
        } else {
            None
        };
        Ok(Cli { command, region, profile, output, no_verify_ssl, verbose })
    }
}

/// The word that names a command on the command line.
pub open spec fn command_name(c: Commands) -> Seq<char> {
    match c {
        Commands::Init(_) => "init"@,
        Commands::InstallModels(_) => "install-models"@,
        Commands::Bucket(_) => "bucket"@,
        Commands::Index(_) => "index"@,
        Commands::Vector(_) => "vector"@,
        Commands::Policy(_) => "policy"@,
        Commands::Rag(_) => "rag"@,
    }
}

impl Commands {
    /// Parses `args[0]` (the program), then a command and its arguments.
    pub fn try_parse_from(args: &Vec<String>) -> (r: Result<Commands, CliError>)
        ensures
            r matches Ok(c) ==> args.len() >= 2 && args@[1]@ == command_name(c),
            args.len() == 4 && args@[1]@ == "bucket"@ && args@[2]@ == "get"@ && plain_from(args@, 3)
                ==> (r matches Ok(
                Commands::Bucket(BucketCommand { command: BucketSubcommands::Get { name } }),
            ) && name@ == args@[3]@),
    {
        proof {
            assert(args.len() == 4 && plain_from(args@, 3) ==> !is_option_token(args@[3]@));
        }
        if args.len() < 2 {
            return Err(cli_error("a subcommand is required", ""));
        }
        parse_command(args, 1)
    }
}

/// The shell that reads commands line by line.
pub struct InteractiveMode {
    client: crate::client::S3VectorsClient,
    output_format: OutputFormat,
    verbose: bool,
}

/// The words of a command line: split at spaces outside double quotes;
/// quotes are dropped; inside quotes a backslash is kept and makes the next
/// character literal.  `None` where a quote is left open.
pub open spec fn command_words(line: Seq<char>) -> Option<Seq<Seq<char>>> {
    let st = scan_words(line);
    if st.in_quotes {
        None
    } else if st.current.len() > 0 {
        Some(st.words.push(st.current))
    } else {
        Some(st.words)
    }
}

/// The tokenizer's state after reading some characters.
pub struct WordScan {
    pub words: Seq<Seq<char>>,
    pub current: Seq<char>,
    pub in_quotes: bool,
    pub escape_next: bool,
}

pub open spec fn scan_words(line: Seq<char>) -> WordScan
    decreases line.len(),
{
    if line.len() == 0 {
        WordScan { words: Seq::empty(), current: Seq::empty(), in_quotes: false, escape_next: false }
    } else {
        word_step(scan_words(line.drop_last()), line.last())
    }
}

pub open spec fn word_step(st: WordScan, ch: char) -> WordScan {
    if st.escape_next {
        WordScan { current: st.current.push(ch), escape_next: false, ..st }
    } else if ch == '\\' && st.in_quotes {
        WordScan { current: st.current.push(ch), escape_next: true, ..st }
    } else if ch == '"' {
        WordScan { in_quotes: !st.in_quotes, ..st }
    } else if ch == ' ' && !st.in_quotes {
        if st.current.len() > 0 {
            WordScan { words: st.words.push(st.current), current: Seq::empty(), ..st }
        } else {
            st
        }
    } else {
        WordScan { current: st.current.push(ch), ..st }
    }
}

impl InteractiveMode {
    pub fn new(client: crate::client::S3VectorsClient, output_format: OutputFormat, verbose: bool) -> (r:
        Self)
        ensures
            r.output_format() == output_format,
            r.verbose() == verbose,
    {
        InteractiveMode { client, output_format, verbose }
    }

    pub closed spec fn output_format(&self) -> OutputFormat {
        self.output_format
    }

    pub closed spec fn verbose(&self) -> bool {
        self.verbose
    }

    /// The output format of command results.
    pub fn format(&self) -> (r: OutputFormat)
        ensures
            r == self.output_format(),
    {
        self.output_format
    }

    /// Whether verbose output is on.
    pub fn is_verbose(&self) -> (r: bool)
        ensures
            r == self.verbose(),
    {
        self.verbose
    }

    /// The client that commands run against.
    pub fn client(&self) -> &crate::client::S3VectorsClient {
        &self.client
    }

    /// Splits a command line into words; fails where a quote is left open.
    pub fn parse_command_args(&self, input: &str) -> (r: Result<Vec<String>, CliError>)
        ensures
            match command_words(input@) {
                Some(ws) => r matches Ok(v) && views(v@) == ws,
                None => r is Err,
            },
    {
        let n = input.unicode_len();
        let mut args: Vec<String> = Vec::new();
        let mut current = String::new();
        let mut in_quotes = false;
        let mut escape_next = false;
        let mut i: usize = 0;
        while i < n
            invariant
                n == input@.len(),
                i <= n,
                ({
                    let st = scan_words(input@.subrange(0, i as int));
                    &&& views(args@) == st.words
                    &&& current@ == st.current
                    &&& in_quotes == st.in_quotes
                    &&& escape_next == st.escape_next
                }),
            decreases n - i,
        {
            let ch = input.get_char(i);
            proof {
                let pre = input@.subrange(0, i + 1);
                assert(pre.drop_last() =~= input@.subrange(0, i as int));
                assert(pre.last() == ch);
            }
            if escape_next {
                current.append(char_text(ch).as_str());
                escape_next = false;
            } else if ch == '\\' && in_quotes {
                current.append(char_text(ch).as_str());
                escape_next = true;
            } else if ch == '"' {
                in_quotes = !in_quotes;
            } else if ch == ' ' && !in_quotes {
                if current.unicode_len() > 0 {
                    let ghost before = args@;
                    args.push(current);
                    current = String::new();
                    assert(views(args@) =~= views(before).push(args@.last()@));
                }
            } else {
                current.append(char_text(ch).as_str());
            }
            i = i + 1;
        }
        assert(input@.subrange(0, n as int) =~= input@);
        if in_quotes {
            return Err(cli_error("Unclosed quote in command", ""));
        }
        if current.unicode_len() > 0 {
            let ghost before = args@;
            args.push(current);
            assert(views(args@) =~= views(before).push(args@.last()@));
        }
        Ok(args)
    }
}

/// Relies on `char::to_string`: the one-character string.
#[verifier::external_body]
fn char_text(c: char) -> (r: String)
    ensures
        r@ == seq![c],
{
    c.to_string()
}

/// The command named at `args[at]`, with its arguments after it.
fn parse_command(args: &Vec<String>, at: usize) -> (r: Result<Commands, CliError>)
    requires
        at < args.len(),
    ensures
        r matches Ok(c) ==> args@[at as int]@ == command_name(c),
        args.len() == at + 3 && args@[at as int]@ == "bucket"@ && args@[at + 1]@ == "get"@
            && !is_option_token(args@[at + 2]@) ==> (r matches Ok(
            Commands::Bucket(BucketCommand { command: BucketSubcommands::Get { name } }),
        ) && name@ == args@[at + 2]@),
{
    let name = args[at].as_str();
    if str_eq(name, "bucket") {
        Ok(Commands::Bucket(BucketCommand { command: BucketSubcommands::parse_at(args, at + 1)? }))
    } else if str_eq(name, "index") {
        Ok(Commands::Index(IndexCommand { command: IndexSubcommands::parse_at(args, at + 1)? }))
    } else if str_eq(name, "vector") {
        Ok(Commands::Vector(VectorCommand { command: VectorSubcommands::parse_at(args, at + 1)? }))
    } else if str_eq(name, "policy") {
        Ok(Commands::Policy(PolicyCommand { command: PolicySubcommands::parse_at(args, at + 1)? }))
    } else if str_eq(name, "rag") {
        Ok(Commands::Rag(RagCommand { command: RagSubcommands::parse_at(args, at + 1)? }))
    } else if str_eq(name, "init") {
        let specs: Vec<OptSpec> = Vec::new();
        let s = scan(args, at + 1, &specs)?;
        at_most(&s, 0)?;
        Ok(Commands::Init(InitCommand))
    } else if str_eq(name, "install-models") {
        let specs = vec![
            opt("model-dir", None, true),
            opt("force", None, false),
            opt("verify", None, false),
            opt("model", None, true),
        ];
        let s = scan(args, at + 1, &specs)?;
        at_most(&s, 0)?;
        Ok(
            Commands::InstallModels(
                InstallModelsCommand {
                    model_dir: text_or(value_of(&s, 0), "./models"),
                    force: flag_of(&s, 1),
                    verify: flag_of(&s, 2),
                    model: text_or(value_of(&s, 3), "all-MiniLM-L6-v2"),
                },
            ),
        )
    } else {
        Err(unknown_subcommand(name))
    }
}

} // verus!

//! Load-time configuration errors.
//!
//! A configuration error is fatal to the unit (api set or system) it
//! belongs to and never to the rest of the configuration.

use vstd::prelude::*;
use vstd::string::StringExecFns;
use crate::model::EndpointCore;

verus! {

/// Everything that can be wrong with one configured rule, api set or
/// shape contract.
#[derive(Clone, Debug)]
pub enum ConfigError {
    /// The `METHOD path` text did not match the endpoint grammar.
    MalformedEndpoint(String),
    /// The path token is not a valid route.
    InvalidPath(String),
    /// A rule referenced a data file key that the data map does not hold.
    MissingDataFile(String),
    /// The configured status is not a three-digit number.
    InvalidStatusCode(u16),
    /// The response-body template did not compile; carries the engine's
    /// diagnostic.
    TemplateCompile(String),
    /// The proxy target does not parse as a URI.
    InvalidProxyUrl(String),
    /// The shape contract and the implemented endpoints differ; both
    /// diagnostic lists are carried, in declaration order.
    ShapeMismatch {
        api_name: String,
        not_implemented: Vec<EndpointCore>,
        undeclared: Vec<EndpointCore>,
    },
}

/// The decimal digit character for one value under ten.
pub open spec fn spec_dec_digit(d: nat) -> char {
    if d == 0 {
        '0'
    } else if d == 1 {
        '1'
    } else if d == 2 {
        '2'
    } else if d == 3 {
        '3'
    } else if d == 4 {
        '4'
    } else if d == 5 {
        '5'
    } else if d == 6 {
        '6'
    } else if d == 7 {
        '7'
    } else if d == 8 {
        '8'
    } else {
        '9'
    }
}

/// The decimal text of a number.
pub open spec fn spec_dec(n: nat) -> Seq<char>
    decreases n,
{
    if n < 10 {
        seq![spec_dec_digit(n)]
    } else {
        spec_dec(n / 10).push(spec_dec_digit(n % 10))
    }
}

/// The digit character of one value under ten.
fn digit_str(d: u16) -> (r: &'static str)
    requires
        d < 10,
    ensures
        r@ == seq![spec_dec_digit(d as nat)],
{
    proof {
        reveal_strlit("0");
        reveal_strlit("1");
        reveal_strlit("2");
        reveal_strlit("3");
        reveal_strlit("4");
        reveal_strlit("5");
        reveal_strlit("6");
        reveal_strlit("7");
        reveal_strlit("8");
        reveal_strlit("9");
    }
    match d {
        0 => "0",
        1 => "1",
        2 => "2",
        3 => "3",
        4 => "4",
        5 => "5",
        6 => "6",
        7 => "7",
        8 => "8",
        _ => "9",
    }
}

/// Renders a number in decimal.
pub fn dec_of_u16(n: u16) -> (r: String)
    ensures
        r@ == spec_dec(n as nat),
    decreases n,
{
    if n < 10 {
        let s = digit_str(n);
        let owned = s.to_owned();
        proof {
            assert(owned@ =~= spec_dec(n as nat));
        }
        owned
    } else {
        let mut s = dec_of_u16(n / 10);
        s.append(digit_str(n % 10));
        proof {
            assert(s@ =~= spec_dec((n / 10) as nat).push(spec_dec_digit((n % 10) as nat)));
        }
        s
    }
}

/// The endpoint written as `METHOD -> /path`.
pub open spec fn spec_ep_display(e: EndpointCore) -> Seq<char> {
    e.method@ + " -> "@ + e.route@
}

/// The `not implemented` diagnostic lines, one per endpoint.
pub open spec fn spec_missing_lines(list: Seq<EndpointCore>) -> Seq<char>
    decreases list.len(),
{
    if list.len() == 0 {
        Seq::empty()
    } else {
        "\n - Api does not implement shape rule '"@ + spec_ep_display(list[0]) + "'"@
            + spec_missing_lines(list.drop_first())
    }
}

/// The `undeclared` diagnostic lines, one per endpoint.
pub open spec fn spec_undeclared_lines(list: Seq<EndpointCore>) -> Seq<char>
    decreases list.len(),
{
    if list.len() == 0 {
        Seq::empty()
    } else {
        "\n - Api contains rule '"@ + spec_ep_display(list[0])
            + "' not present in shape definition"@ + spec_undeclared_lines(list.drop_first())
    }
}

/// Appending an endpoint appends its line.
proof fn lemma_missing_lines_snoc(list: Seq<EndpointCore>, x: EndpointCore)
    ensures
        spec_missing_lines(list.push(x)) == spec_missing_lines(list)
            + ("\n - Api does not implement shape rule '"@ + spec_ep_display(x) + "'"@),
    decreases list.len(),
{
    let line = "\n - Api does not implement shape rule '"@ + spec_ep_display(x) + "'"@;
    if list.len() == 0 {
        assert(list.push(x)[0] == x);
        assert(list.push(x).drop_first() =~= Seq::<EndpointCore>::empty());
        assert(spec_missing_lines(list.push(x).drop_first()) == Seq::<char>::empty());
        assert(line + Seq::<char>::empty() =~= line);
        assert(Seq::<char>::empty() + line =~= line);
    } else {
        assert(list.push(x)[0] == list[0]);
        assert(list.push(x).drop_first() =~= list.drop_first().push(x));
        lemma_missing_lines_snoc(list.drop_first(), x);
        let head = "\n - Api does not implement shape rule '"@ + spec_ep_display(list[0]) + "'"@;
        assert((head + spec_missing_lines(list.drop_first())) + line =~= head
            + (spec_missing_lines(list.drop_first()) + line));
    }
}

/// Appending an endpoint appends its line.
proof fn lemma_undeclared_lines_snoc(list: Seq<EndpointCore>, x: EndpointCore)
    ensures
        spec_undeclared_lines(list.push(x)) == spec_undeclared_lines(list) + ("\n - Api contains rule '"@
            + spec_ep_display(x) + "' not present in shape definition"@),
    decreases list.len(),
{
    let line = "\n - Api contains rule '"@ + spec_ep_display(x)
        + "' not present in shape definition"@;
    if list.len() == 0 {
        assert(list.push(x)[0] == x);
        assert(list.push(x).drop_first() =~= Seq::<EndpointCore>::empty());
        assert(spec_undeclared_lines(list.push(x).drop_first()) == Seq::<char>::empty());
        assert(line + Seq::<char>::empty() =~= line);
        assert(Seq::<char>::empty() + line =~= line);
    } else {
        assert(list.push(x)[0] == list[0]);
        assert(list.push(x).drop_first() =~= list.drop_first().push(x));
        lemma_undeclared_lines_snoc(list.drop_first(), x);
        let head = "\n - Api contains rule '"@ + spec_ep_display(list[0])
            + "' not present in shape definition"@;
        assert((head + spec_undeclared_lines(list.drop_first())) + line =~= head
            + (spec_undeclared_lines(list.drop_first()) + line));
    }
}

impl ConfigError {
    /// A human-readable description, used by diagnostics and logs.
    pub fn message(&self) -> (r: String)
        ensures
            self matches ConfigError::MalformedEndpoint(raw) ==> r@ == "Could not parse endpoint '"@
                + raw@ + "' (should be like 'METHOD /path/to/resource')"@,
            self matches ConfigError::InvalidPath(path) ==> r@ == "Invalid path '"@ + path@
                + "'"@,
            self matches ConfigError::MissingDataFile(key) ==> r@ == "Getting file content of '"@
                + key@ + "'"@,
            self matches ConfigError::InvalidStatusCode(code) ==> r@ == "Parsing file status '"@
                + spec_dec(code as nat) + "'"@,
            self matches ConfigError::TemplateCompile(msg) ==> r@
                == "Registering template in registry: "@ + msg@,
            self matches ConfigError::InvalidProxyUrl(url) ==> r@ == "Parsing url '"@ + url@
                + "'"@,
            self matches ConfigError::ShapeMismatch { api_name, not_implemented, undeclared }
                ==> r@ == "Api name: "@ + api_name@ + "\n -> Shape/api contract mismatch:"@
                + spec_missing_lines(not_implemented@) + spec_undeclared_lines(undeclared@),
    {
        match self {
            ConfigError::MalformedEndpoint(raw) => {
                let mut s = String::from_str("Could not parse endpoint '");
                s.append(raw.as_str());
                s.append("' (should be like 'METHOD /path/to/resource')");
                s
            },
            ConfigError::InvalidPath(path) => {
                let mut s = String::from_str("Invalid path '");
                s.append(path.as_str());
                s.append("'");
                s
            },
            ConfigError::MissingDataFile(key) => {
                let mut s = String::from_str("Getting file content of '");
                s.append(key.as_str());
                s.append("'");
                s
            },
            ConfigError::InvalidStatusCode(code) => {
                let mut s = String::from_str("Parsing file status '");
                let digits = dec_of_u16(*code);
                s.append(digits.as_str());
                s.append("'");
                s
            },
            ConfigError::TemplateCompile(msg) => {
                let mut s = String::from_str("Registering template in registry: ");
                s.append(msg.as_str());
                s
            },
            ConfigError::InvalidProxyUrl(url) => {
                let mut s = String::from_str("Parsing url '");
                s.append(url.as_str());
                s.append("'");
                s
            },
            ConfigError::ShapeMismatch { api_name, not_implemented, undeclared } => {
                let mut s = String::from_str("Api name: ");
                s.append(api_name.as_str());
                s.append("\n -> Shape/api contract mismatch:");
                let mut k: usize = 0;
                proof {
                    assert(not_implemented@.take(0) =~= Seq::<EndpointCore>::empty());
                    assert(s@ + Seq::<char>::empty() =~= s@);
                }
                while k < not_implemented.len()
                    invariant
                        0 <= k <= not_implemented@.len(),
                        s@ == "Api name: "@ + api_name@ + "\n -> Shape/api contract mismatch:"@
                            + spec_missing_lines(not_implemented@.take(k as int)),
                    decreases not_implemented@.len() - k,
                {
                    proof {
                        assert(not_implemented@.take(k + 1 as int) =~= not_implemented@.take(
                            k as int,
                        ).push(not_implemented@[k as int]));
                        lemma_missing_lines_snoc(
                            not_implemented@.take(k as int),
                            not_implemented@[k as int],
                        );
                    }
                    s.append("\n - Api does not implement shape rule '");
                    let shown = not_implemented[k].display_string();
                    s.append(shown.as_str());
                    s.append("'");
                    k = k + 1;
                }
                proof {
                    assert(not_implemented@.take(not_implemented@.len() as int)
                        =~= not_implemented@);
                }
                let ghost mid = s@;
                let mut j: usize = 0;
                proof {
                    assert(undeclared@.take(0) =~= Seq::<EndpointCore>::empty());
                    assert(mid + Seq::<char>::empty() =~= mid);
                }
                while j < undeclared.len()
                    invariant
                        0 <= j <= undeclared@.len(),
                        s@ == mid + spec_undeclared_lines(undeclared@.take(j as int)),
                    decreases undeclared@.len() - j,
                {
                    proof {
                        assert(undeclared@.take(j + 1 as int) =~= undeclared@.take(j as int).push(
                            undeclared@[j as int],
                        ));
                        lemma_undeclared_lines_snoc(
                            undeclared@.take(j as int),
                            undeclared@[j as int],
                        );
                    }
                    s.append("\n - Api contains rule '");
                    let shown = undeclared[j].display_string();
                    s.append(shown.as_str());
                    s.append("' not present in shape definition");
                    j = j + 1;
                }
                proof {
                    assert(undeclared@.take(undeclared@.len() as int) =~= undeclared@);
                }
                s
            },
        }
    }
}

} // verus!

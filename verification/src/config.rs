//! Resolution of the program's configuration from its two plain sources:
//! command-line arguments and environment variables, arguments taking
//! precedence, with a verified decimal reading of the employee id.

use vstd::prelude::*;
use vstd::string::StrSliceExecFns;
use vstd::string::StringExecFns;

use crate::date::{char_digit, digit_val, is_digit_char};

verus! {

/// The command-line arguments, each optional; every present argument
/// overrides its environment counterpart.
pub struct ProgramArguments {
    pub api_key: Option<String>,
    pub employee_id: Option<i32>,
    pub company: Option<String>,
    pub bamboo_base_url: Option<String>,
}

/// The configuration values found in the environment, each optional; the
/// employee id arrives as a string still to be read as a number.
pub struct EnvironmentVariables {
    pub api_key: Option<String>,
    pub employee_id: Option<String>,
    pub company: Option<String>,
    pub bamboo_base_url: Option<String>,
}

/// The resolved configuration the HR client runs with.
pub struct Config {
    pub api_key: String,
    pub employee_id: i32,
    pub company: String,
    pub bamboo_base_url: String,
}

/// Why no configuration could be resolved.
#[derive(Clone, Copy, Debug, PartialEq, Eq)]
pub enum ConfigError {
    /// No API key in the arguments nor in the environment.
    MissingApiKey,
    /// No company name in the arguments nor in the environment.
    MissingCompany,
    /// No employee id in the arguments nor in the environment.
    MissingEmployeeId,
    /// The environment's employee id is not a number an `i32` can hold.
    InvalidEmployeeId,
}

pub open spec fn all_digit_chars(s: Seq<char>) -> bool {
    forall|k: int| 0 <= k < s.len() ==> is_digit_char(#[trigger] s[k])
}

/// The value of a sequence of decimal digit characters, most significant
/// first.
pub open spec fn dec_val(s: Seq<char>) -> int
    decreases s.len(),
{
    if s.len() == 0 {
        0
    } else {
        dec_val(s.drop_last()) * 10 + digit_val(s.last())
    }
}

/// The digits of a decimal numeral: what follows an optional single leading
/// sign.
pub open spec fn numeral_digits(s: Seq<char>) -> Seq<char> {
    if s.len() > 0 && (s[0] == '-' || s[0] == '+') {
        s.drop_first()
    } else {
        s
    }
}

/// Whether `s` is a decimal numeral an `i32` can hold: an optional sign,
/// then at least one digit, with the value in `i32`'s range.
pub open spec fn is_i32_numeral(s: Seq<char>) -> bool {
    &&& numeral_digits(s).len() > 0
    &&& all_digit_chars(numeral_digits(s))
    &&& if s.len() > 0 && s[0] == '-' {
        dec_val(numeral_digits(s)) <= 0x8000_0000
    } else {
        dec_val(numeral_digits(s)) <= 0x7fff_ffff
    }
}

/// The value a decimal numeral denotes.
pub open spec fn i32_numeral_val(s: Seq<char>) -> int {
    if s.len() > 0 && s[0] == '-' {
        -dec_val(numeral_digits(s))
    } else {
        dec_val(numeral_digits(s))
    }
}

proof fn lemma_dec_val_nonneg(s: Seq<char>)
    requires
        all_digit_chars(s),
    ensures
        dec_val(s) >= 0,
    decreases s.len(),
{
    if s.len() > 0 {
        assert(all_digit_chars(s.drop_last()));
        lemma_dec_val_nonneg(s.drop_last());
    }
}

/// A numeral is at least as large as any of its prefixes.
proof fn lemma_dec_val_prefix(s: Seq<char>, k: int)
    requires
        all_digit_chars(s),
        0 <= k <= s.len(),
    ensures
        dec_val(s.take(k)) <= dec_val(s),
    decreases s.len() - k,
{
    assert(all_digit_chars(s.take(k)));
    if k == s.len() {
        assert(s.take(k) =~= s);
    } else {
        lemma_dec_val_prefix(s, k + 1);
        lemma_dec_val_nonneg(s.take(k));
        assert(s.take(k + 1).drop_last() =~= s.take(k));
        assert(dec_val(s.take(k + 1)) == dec_val(s.take(k)) * 10 + digit_val(s[k]));
    }
}

/// Reads a decimal numeral — an optional `+` or `-` sign, then digits —
/// returning its value, or `None` exactly when `s` is not such a numeral or
/// its value does not fit in an `i32`.
pub fn parse_i32_decimal(s: &str) -> (r: Option<i32>)
    ensures
        r is Some <==> is_i32_numeral(s@),
        r matches Some(v) ==> v as int == i32_numeral_val(s@),
{
    let n = s.unicode_len();
    if n == 0 {
        return None;
    }
    let first = s.get_char(0);
    let neg = first == '-';
    let start: usize = if neg || first == '+' {
        1
    } else {
        0
    };
    if n == start {
        return None;
    }
    let ghost ds = numeral_digits(s@);
    proof {
        assert(ds =~= s@.subrange(start as int, n as int));
    }
    let mut i: usize = start;
    let mut acc: u64 = 0;
    while i < n
        invariant
            n == s@.len(),
            0 < n,
            start <= i <= n,
            start <= 1,
            start < n,
            neg == (s@[0] == '-'),
            (start == 1) == (s@[0] == '-' || s@[0] == '+'),
            ds == numeral_digits(s@),
            ds == s@.subrange(start as int, n as int),
            forall|k: int| start <= k < i ==> is_digit_char(#[trigger] s@[k]),
            acc == dec_val(s@.subrange(start as int, i as int)),
            acc <= 0x8000_0000,
        decreases n - i,
    {
        let c = s.get_char(i);
        let d = match char_digit(c) {
            Some(d) => d,
            None => {
                proof {
                    assert(ds[i - start] == s@[i as int]);
                    assert(!all_digit_chars(ds));
                }
                return None;
            },
        };
        proof {
            assert(s@.subrange(start as int, i + 1).drop_last() =~= s@.subrange(
                start as int,
                i as int,
            ));
            assert(s@.subrange(start as int, i + 1).last() == s@[i as int]);
        }
        acc = acc * 10 + (d as u64);
        if acc > 0x8000_0000 {
            proof {
                if is_i32_numeral(s@) {
                    lemma_dec_val_prefix(ds, i + 1 - start);
                    assert(ds.take(i + 1 - start) =~= s@.subrange(start as int, i + 1));
                }
            }
            return None;
        }
        i += 1;
    }
    proof {
        assert(s@.subrange(start as int, n as int) == ds);
        assert(all_digit_chars(ds));
        assert(dec_val(ds) == acc);
    }
    if neg {
        if acc == 0x8000_0000 {
            Some(i32::MIN)
        } else {
            Some(-(acc as i32))
        }
    } else {
        if acc > 0x7fff_ffff {
            None
        } else {
            Some(acc as i32)
        }
    }
}

/// The first present value of two optional strings, as characters (empty
/// when both are absent).
pub open spec fn preferred(a: Option<String>, b: Option<String>) -> Seq<char> {
    match a {
        Some(x) => x@,
        None => match b {
            Some(y) => y@,
            None => Seq::empty(),
        },
    }
}

/// The employee id the two sources denote (0 when neither names one).
pub open spec fn resolved_employee_id(
    args: ProgramArguments,
    env: EnvironmentVariables,
) -> int {
    match args.employee_id {
        Some(v) => v as int,
        None => match env.employee_id {
            Some(s) => i32_numeral_val(s@),
            None => 0,
        },
    }
}

pub open spec fn api_key_missing(args: ProgramArguments, env: EnvironmentVariables) -> bool {
    args.api_key is None && env.api_key is None
}

pub open spec fn company_missing(args: ProgramArguments, env: EnvironmentVariables) -> bool {
    args.company is None && env.company is None
}

pub open spec fn employee_id_missing(args: ProgramArguments, env: EnvironmentVariables) -> bool {
    args.employee_id is None && env.employee_id is None
}

/// The employee id has to come from the environment but its string is not a
/// decimal numeral an `i32` holds.
pub open spec fn employee_id_invalid(args: ProgramArguments, env: EnvironmentVariables) -> bool {
    args.employee_id is None && match env.employee_id {
        Some(s) => !is_i32_numeral(s@),
        None => false,
    }
}

/// Resolves the configuration from arguments and environment: every argument
/// wins over its environment counterpart, the base URL falls back to the
/// platform's public address, and each required value that neither source
/// provides is reported in the order API key, company, employee id.
pub fn resolve_config(args: &ProgramArguments, env: &EnvironmentVariables) -> (r: Result<
    Config,
    ConfigError,
>)
    ensures
        r == Err::<Config, ConfigError>(ConfigError::MissingApiKey) <==> api_key_missing(
            *args,
            *env,
        ),
        r == Err::<Config, ConfigError>(ConfigError::MissingCompany) <==> !api_key_missing(
            *args,
            *env,
        ) && company_missing(*args, *env),
        r == Err::<Config, ConfigError>(ConfigError::MissingEmployeeId) <==> !api_key_missing(
            *args,
            *env,
        ) && !company_missing(*args, *env) && employee_id_missing(*args, *env),
        r == Err::<Config, ConfigError>(ConfigError::InvalidEmployeeId) <==> !api_key_missing(
            *args,
            *env,
        ) && !company_missing(*args, *env) && employee_id_invalid(*args, *env),
        r is Ok <==> !api_key_missing(*args, *env) && !company_missing(*args, *env)
            && !employee_id_missing(*args, *env) && !employee_id_invalid(*args, *env),
        r matches Ok(c) ==> {
            &&& c.api_key@ == preferred(args.api_key, env.api_key)
            &&& c.company@ == preferred(args.company, env.company)
            &&& c.employee_id as int == resolved_employee_id(*args, *env)
            &&& c.bamboo_base_url@ == match args.bamboo_base_url {
                Some(u) => u@,
                None => match env.bamboo_base_url {
                    Some(u) => u@,
                    None => "https://api.bamboohr.com"@,
                },
            }
        },
{
    let api_key: String = match &args.api_key {
        Some(k) => k.clone(),
        None => match &env.api_key {
            Some(k) => k.clone(),
            None => {
                return Err(ConfigError::MissingApiKey);
            },
        },
    };
    let company: String = match &args.company {
        Some(c) => c.clone(),
        None => match &env.company {
            Some(c) => c.clone(),
            None => {
                return Err(ConfigError::MissingCompany);
            },
        },
    };
    let employee_id: i32 = match args.employee_id {
        Some(v) => v,
        None => match &env.employee_id {
            Some(s) => match parse_i32_decimal(s.as_str()) {
                Some(v) => v,
                None => {
                    return Err(ConfigError::InvalidEmployeeId);
                },
            },
            None => {
                return Err(ConfigError::MissingEmployeeId);
            },
        },
    };
    let bamboo_base_url: String = match &args.bamboo_base_url {
        Some(u) => u.clone(),
        None => match &env.bamboo_base_url {
            Some(u) => u.clone(),
            None => String::from_str("https://api.bamboohr.com"),
        },
    };
    Ok(Config { api_key, employee_id, company, bamboo_base_url })
}

} // verus!

//! Extraction of `--env KEY=VALUE` flags from command-line arguments.
use vstd::prelude::*;

use crate::text::{
    chars_of, pair_views, slice_chars, split_once_char, split_once_spec, starts_with,
    starts_with_spec, str_eq, string_from, string_views, trim_chars, trim_spec,
};

verus! {

/// One environment variable: key and value.
pub type EnvVar = (String, String);

/// The arguments that are not `--env` flags, and the variables those flags gave.
pub type SplitEnvResult = (Vec<String>, Vec<EnvVar>);

/// What `parse_env_kv` gives for `input`: the text before the first `=`,
/// trimmed, as key, and everything after it, untouched, as value.
pub open spec fn parse_env_spec(input: Seq<char>) -> Result<(Seq<char>, Seq<char>), Seq<char>> {
    match split_once_spec(input, '=') {
        None => Err("Expected KEY=VALUE"@),
        Some((k, v)) => if trim_spec(k).len() == 0 {
            Err("Environment variable key cannot be empty"@)
        } else {
            Ok((trim_spec(k), v))
        },
    }
}

/// Puts the already collected arguments and variables in front of the
/// outcome for the rest of the arguments.
pub open spec fn prepend_split(
    rest: Seq<Seq<char>>,
    envs: Seq<(Seq<char>, Seq<char>)>,
    res: Result<(Seq<Seq<char>>, Seq<(Seq<char>, Seq<char>)>), Seq<char>>,
) -> Result<(Seq<Seq<char>>, Seq<(Seq<char>, Seq<char>)>), Seq<char>> {
    match res {
        Err(e) => Err(e),
        Ok((r, e)) => Ok((rest + r, envs + e)),
    }
}

/// What `split_env_flags` gives for `args`, read from the left: `--env`
/// takes the next argument as `KEY=VALUE`, `--env=KEY=VALUE` carries it
/// inline, every other argument is kept in order. The first malformed
/// flag decides the error.
pub open spec fn split_env_spec(args: Seq<Seq<char>>) -> Result<
    (Seq<Seq<char>>, Seq<(Seq<char>, Seq<char>)>),
    Seq<char>,
>
    decreases args.len(),
{
    if args.len() == 0 {
        Ok((seq![], seq![]))
    } else if args[0] == "--env"@ {
        if args.len() < 2 {
            Err("--env requires a KEY=VALUE argument"@)
        } else {
            match parse_env_spec(args[1]) {
                Err(e) => Err(e),
                Ok(p) => prepend_split(seq![], seq![p], split_env_spec(args.skip(2))),
            }
        }
    } else if starts_with_spec(args[0], "--env="@) {
        match parse_env_spec(args[0].skip(6)) {
            Err(e) => Err(e),
            Ok(p) => prepend_split(seq![], seq![p], split_env_spec(args.skip(1))),
        }
    } else {
        prepend_split(seq![args[0]], seq![], split_env_spec(args.skip(1)))
    }
}

/// Parses `KEY=VALUE`: the key is trimmed and must not be empty; the
/// value is everything after the first `=`.
pub fn parse_env_kv(input: &str) -> (r: Result<EnvVar, String>)
    ensures
        match r {
            Ok((k, v)) => parse_env_spec(input@) == Ok::<(Seq<char>, Seq<char>), Seq<char>>(
                (k@, v@),
            ),
            Err(e) => parse_env_spec(input@) == Err::<(Seq<char>, Seq<char>), Seq<char>>(e@),
        },
{
    let chars = chars_of(input);
    match split_once_char(&chars, '=') {
        None => Err("Expected KEY=VALUE".to_owned()),
        Some((key, value)) => {
            let key = trim_chars(&key);
            if key.len() == 0 {
                Err("Environment variable key cannot be empty".to_owned())
            } else {
                Ok((string_from(key.as_slice()), string_from(value.as_slice())))
            }
        },
    }
}

/// Separates `--env KEY=VALUE` and `--env=KEY=VALUE` flags from the other
/// arguments, keeping both in their order.
pub fn split_env_flags(args: &[String]) -> (r: Result<SplitEnvResult, String>)
    ensures
        match r {
            Ok((rest, envs)) => split_env_spec(string_views(args@)) == Ok::<
                (Seq<Seq<char>>, Seq<(Seq<char>, Seq<char>)>),
                Seq<char>,
            >((string_views(rest@), pair_views(envs@))),
            Err(e) => split_env_spec(string_views(args@)) == Err::<
                (Seq<Seq<char>>, Seq<(Seq<char>, Seq<char>)>),
                Seq<char>,
            >(e@),
        },
{
    let ghost all = string_views(args@);
    let mut remaining: Vec<String> = Vec::new();
    let mut envs: Vec<EnvVar> = Vec::new();
    let mut i: usize = 0;
    proof {
        reveal_strlit("--env=");
        assert(all.skip(0) =~= all);
        assert(string_views(remaining@) =~= Seq::<Seq<char>>::empty());
        assert(pair_views(envs@) =~= Seq::<(Seq<char>, Seq<char>)>::empty());
    }
    while i < args.len()
        invariant
            i <= args.len(),
            all == string_views(args@),
            "--env="@.len() == 6,
            split_env_spec(all) == prepend_split(
                string_views(remaining@),
                pair_views(envs@),
                split_env_spec(all.skip(i as int)),
            ),
        decreases args.len() - i,
    {
        let ghost t = all.skip(i as int);
        let token: &String = &args[i];
        assert(t[0] == token@);
        if str_eq(token.as_str(), "--env") {
            if i + 1 >= args.len() {
                return Err("--env requires a KEY=VALUE argument".to_owned());
            }
            assert(t[1] == args@[i + 1]@);
            let parsed = parse_env_kv(args[i + 1].as_str());
            match parsed {
                Err(e) => {
                    return Err(e);
                },
                Ok(p) => {
                    let ghost r0 = remaining@;
                    let ghost e0 = envs@;
                    envs.push(p);
                    i = i + 2;
                    proof {
                        assert(t.skip(2) =~= all.skip(i as int));
                        assert(pair_views(envs@) =~= pair_views(e0) + seq![(p.0@, p.1@)]);
                        assert(string_views(r0) + Seq::<Seq<char>>::empty() =~= string_views(r0));
                        match split_env_spec(all.skip(i as int)) {
                            Ok((r, e)) => {
                                assert(pair_views(e0) + (seq![(p.0@, p.1@)] + e) =~= pair_views(
                                    envs@,
                                ) + e);
                                assert(string_views(r0) + (Seq::<Seq<char>>::empty() + r)
                                    =~= string_views(remaining@) + r);
                            },
                            Err(e) => {},
                        }
                    }
                },
            }
        } else {
            let tok_chars = chars_of(token.as_str());
            let prefix = chars_of("--env=");
            if starts_with(&tok_chars, &prefix) {
                let rest = slice_chars(&tok_chars, 6, tok_chars.len());
                assert(rest@ =~= t[0].skip(6));
                let rest_str = string_from(rest.as_slice());
                let parsed = parse_env_kv(rest_str.as_str());
                match parsed {
                    Err(e) => {
                        return Err(e);
                    },
                    Ok(p) => {
                        let ghost r0 = remaining@;
                        let ghost e0 = envs@;
                        envs.push(p);
                        i = i + 1;
                        proof {
                            assert(t.skip(1) =~= all.skip(i as int));
                            assert(pair_views(envs@) =~= pair_views(e0) + seq![(p.0@, p.1@)]);
                            match split_env_spec(all.skip(i as int)) {
                                Ok((r, e)) => {
                                    assert(pair_views(e0) + (seq![(p.0@, p.1@)] + e)
                                        =~= pair_views(envs@) + e);
                                    assert(string_views(r0) + (Seq::<Seq<char>>::empty() + r)
                                        =~= string_views(remaining@) + r);
                                },
                                Err(e) => {},
                            }
                        }
                    },
                }
            } else {
                let ghost r0 = remaining@;
                let ghost e0 = envs@;
                remaining.push(token.clone());
                i = i + 1;
                proof {
                    assert(t.skip(1) =~= all.skip(i as int));
                    assert(string_views(remaining@) =~= string_views(r0) + seq![token@]);
                    match split_env_spec(all.skip(i as int)) {
                        Ok((r, e)) => {
                            assert(string_views(r0) + (seq![token@] + r) =~= string_views(
                                remaining@,
                            ) + r);
                            assert(pair_views(e0) + (Seq::<(Seq<char>, Seq<char>)>::empty() + e)
                                =~= pair_views(envs@) + e);
                        },
                        Err(e) => {},
                    }
                }
            }
        }
    }
    proof {
        assert(all.skip(i as int) =~= Seq::<Seq<char>>::empty());
        assert(string_views(remaining@) + Seq::<Seq<char>>::empty() =~= string_views(remaining@));
        assert(pair_views(envs@) + Seq::<(Seq<char>, Seq<char>)>::empty() =~= pair_views(envs@));
    }
    Ok((remaining, envs))
}

} // verus!

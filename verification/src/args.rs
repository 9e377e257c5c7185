//! Command-line argument parsing for the `patch` and `plugin` commands.

use vstd::prelude::*;

use crate::error::OpenCadError;

verus! {

/// The usage line of the `patch` command.
pub const PATCH_USAGE: &'static str =
    "usage: opencad patch <document> <patch.json> [--dry-run] [--json] [--geometry]";

/// The usage line of the `plugin` command.
pub const PLUGIN_USAGE: &'static str =
    "usage: opencad plugin list [--json] | plugin invoke <id> <document> <request.json> [--dry-run] [--output <path>] [--json]";

/// The usage line of `plugin list`.
pub const PLUGIN_LIST_USAGE: &'static str = "usage: opencad plugin list [--json]";

/// The usage line of `plugin invoke`.
pub const PLUGIN_INVOKE_USAGE: &'static str =
    "usage: opencad plugin invoke <id> <document> <request.json> [--dry-run] [--output <path>] [--json]";

/// Options for `opencad patch`.
#[derive(Debug, Clone, Copy, PartialEq, Eq, Default)]
pub struct PatchOptions {
    pub dry_run: bool,
    pub json: bool,
    pub geometry: bool,
}

/// Parsed command-line arguments for `opencad patch`.
#[derive(Debug, Clone, PartialEq, Eq)]
pub struct PatchArgs {
    pub doc_path: String,
    pub patch_path: String,
    pub options: PatchOptions,
}

/// The text of each argument.
pub open spec fn arg_texts(args: Seq<&str>) -> Seq<Seq<char>> {
    args.map_values(|a: &str| a@)
}

/// The text of each argument.
pub open spec fn string_texts(args: Seq<String>) -> Seq<Seq<char>> {
    args.map_values(|a: String| a@)
}

/// The flags that `opencad patch` recognizes.
pub open spec fn is_patch_flag(a: Seq<char>) -> bool {
    a == "--dry-run"@ || a == "--json"@ || a == "--geometry"@
}

/// The arguments of `opencad patch` that are not flags, in order.
pub open spec fn patch_positionals(args: Seq<Seq<char>>) -> Seq<Seq<char>>
    decreases args.len(),
{
    if args.len() == 0 {
        Seq::empty()
    } else {
        let rest = patch_positionals(args.drop_last());
        if is_patch_flag(args.last()) {
            rest
        } else {
            rest.push(args.last())
        }
    }
}

/// `opencad patch` is given the document and the patch as the first two
/// non-flag arguments (later ones are ignored); each flag switches on its
/// option wherever it occurs.
pub open spec fn patch_args_spec(args: Seq<Seq<char>>, r: Result<PatchArgs, OpenCadError>) -> bool {
    let positional = patch_positionals(args);
    if positional.len() < 2 {
        r matches Err(OpenCadError::Validation(m)) && m@ == PATCH_USAGE@
    } else {
        r matches Ok(p) && {
            &&& p.doc_path@ == positional[0]
            &&& p.patch_path@ == positional[1]
            &&& p.options.dry_run == args.contains("--dry-run"@)
            &&& p.options.json == args.contains("--json"@)
            &&& p.options.geometry == args.contains("--geometry"@)
        }
    }
}

/// Parse the arguments of `opencad patch <document> <patch.json> [--dry-run]
/// [--json] [--geometry]`.
pub fn parse_patch_args(args: &[&str]) -> (r: Result<PatchArgs, OpenCadError>)
    ensures
        patch_args_spec(arg_texts(args@), r),
{
    proof {
        reveal_strlit("--dry-run");
        reveal_strlit("--json");
        reveal_strlit("--geometry");
    }
    let ghost texts = arg_texts(args@);
    let mut positional: Vec<String> = Vec::new();
    let mut dry_run = false;
    let mut json = false;
    let mut geometry = false;
    let n = args.len();
    let mut i: usize = 0;
    while i < n
        invariant
            n == args@.len(),
            texts == arg_texts(args@),
            i <= n,
            string_texts(positional@) == patch_positionals(texts.subrange(0, i as int)),
            dry_run == texts.subrange(0, i as int).contains("--dry-run"@),
            json == texts.subrange(0, i as int).contains("--json"@),
            geometry == texts.subrange(0, i as int).contains("--geometry"@),
        decreases n - i,
    {
        let a: &str = args[i];
        let ghost prefix = texts.subrange(0, i as int);
        let ghost next = texts.subrange(0, i + 1);
        assert(next.drop_last() =~= prefix);
        assert(next.last() == a@);
        assert(next =~= prefix.push(a@));
        if a.eq("--dry-run") {
            dry_run = true;
        } else if a.eq("--json") {
            json = true;
        } else if a.eq("--geometry") {
            geometry = true;
        } else {
            positional.push(a.to_owned());
            assert(string_texts(positional@) =~= patch_positionals(prefix).push(a@));
        }
        proof {
            reveal_strlit("--dry-run");
            reveal_strlit("--json");
            reveal_strlit("--geometry");
            assert(next.contains("--dry-run"@) == (prefix.contains("--dry-run"@) || a@ == "--dry-run"@)) by {
                if a@ == "--dry-run"@ {
                    assert(next[i as int] == a@);
                }
                if next.contains("--dry-run"@) && a@ != "--dry-run"@ {
                    let k = choose|k: int| 0 <= k < next.len() && next[k] == "--dry-run"@;
                    assert(prefix[k] == next[k]);
                }
            }
            assert(next.contains("--json"@) == (prefix.contains("--json"@) || a@ == "--json"@)) by {
                if a@ == "--json"@ {
                    assert(next[i as int] == a@);
                }
                if next.contains("--json"@) && a@ != "--json"@ {
                    let k = choose|k: int| 0 <= k < next.len() && next[k] == "--json"@;
                    assert(prefix[k] == next[k]);
                }
            }
            assert(next.contains("--geometry"@) == (prefix.contains("--geometry"@) || a@ == "--geometry"@)) by {
                if a@ == "--geometry"@ {
                    assert(next[i as int] == a@);
                }
                if next.contains("--geometry"@) && a@ != "--geometry"@ {
                    let k = choose|k: int| 0 <= k < next.len() && next[k] == "--geometry"@;
                    assert(prefix[k] == next[k]);
                }
            }
        }
        i = i + 1;
    }
    assert(texts.subrange(0, n as int) =~= texts);
    if positional.len() < 2 {
        return Err(OpenCadError::validation(PATCH_USAGE));
    }
    let doc_path = positional[0].clone();
    let patch_path = positional[1].clone();
    Ok(PatchArgs { doc_path, patch_path, options: PatchOptions { dry_run, json, geometry } })
}

/// Parsed `opencad plugin` command.
#[derive(Debug, Clone, PartialEq, Eq)]
pub enum PluginCliCommand {
    List { json: bool },
    Invoke {
        plugin_id: String,
        doc_path: String,
        request_path: String,
        dry_run: bool,
        output: Option<String>,
        json: bool,
    },
}

/// What `plugin invoke` has read of its arguments so far.
pub struct InvokeScan {
    pub positional: Seq<Seq<char>>,
    pub dry_run: bool,
    pub json: bool,
    pub output: Option<Seq<char>>,
}

/// Read the `plugin invoke` arguments from position `i` on: `--dry-run` and
/// `--json` switch on their options, `--output` takes the next argument as the
/// output path (the last one given wins), anything else is positional.
/// `None` when `--output` is the last argument.
pub open spec fn invoke_scan(args: Seq<Seq<char>>, i: int, st: InvokeScan) -> Option<InvokeScan>
    decreases args.len() - i,
{
    if i >= args.len() || i < 0 {
        Some(st)
    } else if args[i] == "--dry-run"@ {
        invoke_scan(args, i + 1, InvokeScan { dry_run: true, ..st })
    } else if args[i] == "--json"@ {
        invoke_scan(args, i + 1, InvokeScan { json: true, ..st })
    } else if args[i] == "--output"@ {
        if i + 1 < args.len() {
            invoke_scan(args, i + 2, InvokeScan { output: Some(args[i + 1]), ..st })
        } else {
            None
        }
    } else {
        invoke_scan(args, i + 1, InvokeScan { positional: st.positional.push(args[i]), ..st })
    }
}

/// The result of `opencad plugin <args>`.
pub open spec fn plugin_cli_spec(args: Seq<Seq<char>>, r: Result<PluginCliCommand, OpenCadError>) -> bool {
    if args.len() == 0 {
        r matches Err(OpenCadError::Validation(m)) && m@ == PLUGIN_USAGE@
    } else if args[0] == "list"@ {
        let only_json = forall|k: int| 1 <= k < args.len() ==> args[k] == "--json"@;
        let json = exists|k: int| 1 <= k < args.len() && args[k] == "--json"@;
        if !only_json {
            r matches Err(OpenCadError::Validation(m)) && m@ == PLUGIN_LIST_USAGE@
        } else {
            r matches Ok(PluginCliCommand::List { json: j }) && j == json
        }
    } else if args[0] == "invoke"@ {
        match invoke_scan(
            args,
            1,
            InvokeScan { positional: Seq::empty(), dry_run: false, json: false, output: None },
        ) {
            None => r matches Err(OpenCadError::Validation(m)) && m@ == "--output requires a path"@,
            Some(st) => if st.positional.len() != 3 {
                r matches Err(OpenCadError::Validation(m)) && m@ == PLUGIN_INVOKE_USAGE@
            } else {
                r matches Ok(
                    PluginCliCommand::Invoke {
                        plugin_id,
                        doc_path,
                        request_path,
                        dry_run,
                        output,
                        json,
                    },
                ) && plugin_id@ == st.positional[0] && doc_path@ == st.positional[1]
                    && request_path@ == st.positional[2] && dry_run == st.dry_run && json
                    == st.json && match output {
                    Some(o) => st.output == Some(o@),
                    None => st.output is None,
                }
            },
        }
    } else {
        r matches Err(OpenCadError::Validation(m)) && m@ == PLUGIN_USAGE@
    }
}

/// The view of an optional argument.
pub open spec fn opt_text(o: Option<String>) -> Option<Seq<char>> {
    match o {
        Some(s) => Some(s@),
        None => None,
    }
}

/// Parse plugin command-line arguments without invoking plugin code.
pub fn parse_cli_args(args: &[String]) -> (r: Result<PluginCliCommand, OpenCadError>)
    ensures
        plugin_cli_spec(string_texts(args@), r),
{
    let ghost texts = string_texts(args@);
    let n = args.len();
    if n == 0 {
        return Err(OpenCadError::validation(PLUGIN_USAGE));
    }
    let command: &str = args[0].as_str();
    assert(command@ == texts[0]);
    if command.eq("list") {
        let mut only_json = true;
        let mut json = false;
        let mut k: usize = 1;
        while k < n
            invariant
                n == args@.len(),
                texts == string_texts(args@),
                1 <= k <= n,
                only_json == (forall|j: int| 1 <= j < k ==> texts[j] == "--json"@),
                json == (exists|j: int| 1 <= j < k && texts[j] == "--json"@),
            decreases n - k,
        {
            let is_json = args[k].as_str().eq("--json");
            assert(is_json == (texts[k as int] == "--json"@));
            only_json = only_json && is_json;
            json = json || is_json;
            k = k + 1;
        }
        if !only_json {
            return Err(OpenCadError::validation(PLUGIN_LIST_USAGE));
        }
        Ok(PluginCliCommand::List { json })
    } else if command.eq("invoke") {
        let mut positional: Vec<String> = Vec::new();
        let mut dry_run = false;
        let mut json = false;
        let mut output: Option<String> = None;
        let mut index: usize = 1;
        let ghost init = InvokeScan {
            positional: Seq::empty(),
            dry_run: false,
            json: false,
            output: None,
        };
        assert(string_texts(positional@) =~= Seq::<Seq<char>>::empty());
        while index < n
            invariant
                n == args@.len(),
                texts == string_texts(args@),
                1 <= index <= n + 1,
                texts[0] == "invoke"@,
                init == (InvokeScan {
                    positional: Seq::empty(),
                    dry_run: false,
                    json: false,
                    output: None,
                }),
                invoke_scan(texts, 1, init) == invoke_scan(
                    texts,
                    index as int,
                    InvokeScan {
                        positional: string_texts(positional@),
                        dry_run,
                        json,
                        output: opt_text(output),
                    },
                ),
            decreases n + 1 - index,
        {
            let a: &str = args[index].as_str();
            assert(a@ == texts[index as int]);
            proof {
                reveal_strlit("--dry-run");
                reveal_strlit("--json");
                reveal_strlit("--output");
                reveal_strlit("list");
                reveal_strlit("invoke");
            }
            if a.eq("--dry-run") {
                dry_run = true;
            } else if a.eq("--json") {
                json = true;
            } else if a.eq("--output") {
                if index + 1 >= n {
                    assert(invoke_scan(
                        texts,
                        index as int,
                        InvokeScan {
                            positional: string_texts(positional@),
                            dry_run,
                            json,
                            output: opt_text(output),
                        },
                    ) is None);
                    assert(invoke_scan(texts, 1, init) is None);
                    assert("invoke"@.len() == 6 && "list"@.len() == 4);
                    return Err(OpenCadError::validation("--output requires a path"));
                }
                let path = args[index + 1].clone();
                assert(path@ == texts[index + 1]);
                output = Some(path);
                index = index + 1;
            } else {
                let ghost before = positional@;
                positional.push(a.to_owned());
                assert(string_texts(positional@) =~= string_texts(before).push(a@));
            }
            index = index + 1;
        }
        if positional.len() != 3 {
            return Err(OpenCadError::validation(PLUGIN_INVOKE_USAGE));
        }
        let request_path = positional.pop().unwrap();
        let doc_path = positional.pop().unwrap();
        let plugin_id = positional.pop().unwrap();
        Ok(PluginCliCommand::Invoke { plugin_id, doc_path, request_path, dry_run, output, json })
    } else {
        Err(OpenCadError::validation(PLUGIN_USAGE))
    }
}

/// Reading `plugin invoke` arguments that are followed by more arguments
/// goes through the first ones as it would alone, then carries on from where
/// they ended with what they gave.
proof fn lemma_invoke_scan_extend(args: Seq<Seq<char>>, tail: Seq<Seq<char>>, i: int, st: InvokeScan)
    requires
        0 <= i <= args.len(),
        invoke_scan(args, i, st) is Some,
    ensures
        invoke_scan(args, i, st) matches Some(f) ==> invoke_scan(args + tail, i, st) == invoke_scan(
            args + tail,
            args.len() as int,
            f,
        ),
    decreases args.len() - i,
{
    let full = args + tail;
    if i < args.len() {
        assert(full[i] == args[i]);
        if args[i] == "--dry-run"@ {
            lemma_invoke_scan_extend(args, tail, i + 1, InvokeScan { dry_run: true, ..st });
        } else if args[i] == "--json"@ {
            lemma_invoke_scan_extend(args, tail, i + 1, InvokeScan { json: true, ..st });
        } else if args[i] == "--output"@ {
            assert(full[i + 1] == args[i + 1]);
            lemma_invoke_scan_extend(args, tail, i + 2, InvokeScan { output: Some(args[i + 1]), ..st });
        } else {
            lemma_invoke_scan_extend(args, tail, i + 1, InvokeScan { positional: st.positional.push(args[i]), ..st });
        }
    }
}

/// The `plugin invoke` option names, told apart.
proof fn lemma_invoke_flags_differ()
    ensures
        "--dry-run"@ != "--json"@,
        "--dry-run"@ != "--output"@,
        "--json"@ != "--output"@,
{
    reveal_strlit("--dry-run");
    reveal_strlit("--json");
    reveal_strlit("--output");
    assert("--dry-run"@.len() == 9);
    assert("--json"@.len() == 6);
    assert("--output"@.len() == 8);
}

/// `--dry-run` after arguments that read as `f` switches the dry run on and
/// changes nothing else.
pub proof fn lemma_invoke_dry_run_flag(args: Seq<Seq<char>>, st: InvokeScan)
    requires
        args.len() >= 1,
        invoke_scan(args, 1, st) is Some,
    ensures
        invoke_scan(args, 1, st) matches Some(f) && invoke_scan(args.push("--dry-run"@), 1, st) == Some(
            InvokeScan { dry_run: true, ..f },
        ),
{
    lemma_invoke_scan_extend(args, seq!["--dry-run"@], 1, st);
    assert(args.push("--dry-run"@) =~= args + seq!["--dry-run"@]);
    let full = args + seq!["--dry-run"@];
    let n = args.len() as int;
    assert(full[n] == "--dry-run"@);
    let f = invoke_scan(args, 1, st)->0;
    let g = InvokeScan { dry_run: true, ..f };
    assert(invoke_scan(full, n + 1, g) == Some(g));
    assert(invoke_scan(full, n, f) == invoke_scan(full, n + 1, g));
}

/// `--json` after arguments that read as `f` switches JSON output on and
/// changes nothing else.
pub proof fn lemma_invoke_json_flag(args: Seq<Seq<char>>, st: InvokeScan)
    requires
        args.len() >= 1,
        invoke_scan(args, 1, st) is Some,
    ensures
        invoke_scan(args, 1, st) matches Some(f) && invoke_scan(args.push("--json"@), 1, st) == Some(
            InvokeScan { json: true, ..f },
        ),
{
    lemma_invoke_flags_differ();
    lemma_invoke_scan_extend(args, seq!["--json"@], 1, st);
    assert(args.push("--json"@) =~= args + seq!["--json"@]);
    let full = args + seq!["--json"@];
    let n = args.len() as int;
    assert(full[n] == "--json"@);
    let f = invoke_scan(args, 1, st)->0;
    let g = InvokeScan { json: true, ..f };
    assert(invoke_scan(full, n + 1, g) == Some(g));
    assert(invoke_scan(full, n, f) == invoke_scan(full, n + 1, g));
}

/// `--output p` after arguments that read as `f` sets the output path to
/// `p` and changes nothing else; `--output` as the last argument is refused.
pub proof fn lemma_invoke_output_flag(args: Seq<Seq<char>>, path: Seq<char>, st: InvokeScan)
    requires
        args.len() >= 1,
        invoke_scan(args, 1, st) is Some,
    ensures
        invoke_scan(args, 1, st) matches Some(f) && invoke_scan(args + seq!["--output"@, path], 1, st) == Some(
            InvokeScan { output: Some(path), ..f },
        ),
        invoke_scan(args.push("--output"@), 1, st) is None,
{
    lemma_invoke_flags_differ();
    lemma_invoke_scan_extend(args, seq!["--output"@, path], 1, st);
    let full = args + seq!["--output"@, path];
    let n = args.len() as int;
    assert(full[n] == "--output"@);
    assert(full[n + 1] == path);
    let f = invoke_scan(args, 1, st)->0;
    let g = InvokeScan { output: Some(path), ..f };
    assert(invoke_scan(full, n + 2, g) == Some(g));
    assert(invoke_scan(full, n, f) == invoke_scan(full, n + 2, g));
    lemma_invoke_scan_extend(args, seq!["--output"@], 1, st);
    assert(args.push("--output"@) =~= args + seq!["--output"@]);
    let short = args + seq!["--output"@];
    assert(short[n] == "--output"@);
    assert(invoke_scan(short, n, f) is None);
}

/// Any other argument after arguments that read as `f` is the next
/// positional argument, after those already read.
pub proof fn lemma_invoke_positional(args: Seq<Seq<char>>, a: Seq<char>, st: InvokeScan)
    requires
        args.len() >= 1,
        invoke_scan(args, 1, st) is Some,
        a != "--dry-run"@,
        a != "--json"@,
        a != "--output"@,
    ensures
        invoke_scan(args, 1, st) matches Some(f) && invoke_scan(args.push(a), 1, st) == Some(
            InvokeScan { positional: f.positional.push(a), ..f },
        ),
{
    lemma_invoke_scan_extend(args, seq![a], 1, st);
    assert(args.push(a) =~= args + seq![a]);
    let full = args + seq![a];
    let n = args.len() as int;
    assert(full[n] == a);
    let f = invoke_scan(args, 1, st)->0;
    let g = InvokeScan { positional: f.positional.push(a), ..f };
    assert(invoke_scan(full, n + 1, g) == Some(g));
    assert(invoke_scan(full, n, f) == invoke_scan(full, n + 1, g));
}

/// The positional arguments of `opencad patch` are its arguments with the
/// flags taken out, in their order.
pub proof fn lemma_patch_positionals_drop_flags(args: Seq<Seq<char>>)
    ensures
        patch_positionals(args) == args.filter(|a: Seq<char>| !is_patch_flag(a)),
    decreases args.len(),
{
    reveal(Seq::filter);
    if args.len() > 0 {
        lemma_patch_positionals_drop_flags(args.drop_last());
    }
}

} // verus!

//! Shell completion scripts for bash, zsh and fish, written from the command table.
use crate::cli::CmdInfo;
use crate::text::{cat, chars_of, is_prefix, join_strs, joined, lit, push_all, slice_copy, starts_with, string_of, strs_view, trim, trim_exec};
use vstd::prelude::*;

verus! {

/// The names of the commands.
pub open spec fn cmd_names(defs: Seq<CmdInfo>) -> Seq<Seq<char>> {
    Seq::new(defs.len(), |i: int| defs[i].name@)
}

/// A command's options separated by spaces.
pub open spec fn opts_text(c: CmdInfo) -> Seq<char> {
    joined(strs_view(c.opts@), " "@)
}

/// The `case` arms of the bash script.
pub open spec fn bash_cases(defs: Seq<CmdInfo>) -> Seq<char>
    decreases defs.len(),
{
    if defs.len() == 0 {
        seq![]
    } else {
        bash_cases(defs.drop_last()) + "        "@ + defs.last().name@ + ")\n            opts=\""@ + opts_text(defs.last())
            + "\"\n            ;;\n"@
    }
}

/// The bash script before trimming.
pub open spec fn bash_script(cmds: Seq<char>, globals: Seq<char>, cases: Seq<char>) -> Seq<char> {
    "\n_fp_appimage_updater() {\n    local cur prev cmds opts global_opts subcommand\n    COMPREPLY=()\n    cur=\"${COMP_WORDS[COMP_CWORD]}\"\n    prev=\"${COMP_WORDS[COMP_CWORD-1]}\"\n    \n    cmds=\""@
        + cmds + "\"\n    global_opts=\""@ + globals
        + "\"\n\n    if [[ ${COMP_CWORD} -eq 1 ]]; then\n        if [[ ${cur} == -* ]]; then\n            COMPREPLY=( $(compgen -W \"${global_opts}\" -- \"${cur}\") )\n        else\n            COMPREPLY=( $(compgen -W \"${cmds} ${global_opts}\" -- \"${cur}\") )\n        fi\n        return 0\n    fi\n\n    subcommand=\"${COMP_WORDS[1]}\"\n    case \"${subcommand}\" in\n"@
        + cases
        + "        *)\n            opts=\"\"\n            ;;\n    esac\n\n    if [[ ${cur} == -* ]]; then\n        COMPREPLY=( $(compgen -W \"${opts} ${global_opts}\" -- \"${cur}\") )\n    else\n        COMPREPLY=( $(compgen -W \"${opts}\" -- \"${cur}\") )\n    fi\n}\ncomplete -F _fp_appimage_updater fp-appimage-updater\n"@
}

/// The `case` arms of the zsh script.
pub open spec fn zsh_cases(defs: Seq<CmdInfo>) -> Seq<char>
    decreases defs.len(),
{
    if defs.len() == 0 {
        seq![]
    } else {
        zsh_cases(defs.drop_last()) + "                "@ + defs.last().name@ + ") _arguments '*: :("@
            + opts_text(defs.last()) + ")' ;;\n"@
    }
}

/// The zsh script before trimming.
pub open spec fn zsh_script(cmds: Seq<char>, cases: Seq<char>) -> Seq<char> {
    "\n#compdef fp-appimage-updater\n_fp_appimage_updater() {\n    local curcontext=\"$curcontext\" state line\n    typeset -A opt_args\n\n    _arguments -C \\\n        '1: :("@
        + cmds + ")' \\\n        '*: :->args'\n\n    case $state in\n        args)\n            case $line[1] in\n"@ + cases
        + "            esac\n            ;;\n    esac\n}\nif [[ \"$funcstack[1]\" == \"_fp_appimage_updater\" ]]; then\n    _fp_appimage_updater \"$@\"\nelse\n    compdef _fp_appimage_updater fp-appimage-updater\nfi\n"@
}

/// The fish line completing option `opt` under `condition`: long options by `-l`,
/// short ones by `-o`, nothing for anything else.
pub open spec fn fish_opt_line(condition: Seq<char>, opt: Seq<char>) -> Seq<char> {
    if is_prefix("--"@, opt) {
        "complete -c fp-appimage-updater -n '"@ + condition + "' -l '"@ + opt.skip(2) + "'\n"@
    } else if is_prefix("-"@, opt) {
        "complete -c fp-appimage-updater -n '"@ + condition + "' -o '"@ + opt.skip(1) + "'\n"@
    } else {
        seq![]
    }
}

/// The fish lines of a list of options under `condition`.
pub open spec fn fish_opt_lines(condition: Seq<char>, opts: Seq<Seq<char>>) -> Seq<char>
    decreases opts.len(),
{
    if opts.len() == 0 {
        seq![]
    } else {
        fish_opt_lines(condition, opts.drop_last()) + fish_opt_line(condition, opts.last())
    }
}

/// The condition of the fish lines offered before a command is given.
pub open spec fn fish_top(cmds: Seq<char>) -> Seq<char> {
    "not __fish_seen_subcommand_from "@ + cmds
}

/// The fish lines of the commands and their options.
pub open spec fn fish_cmds(cmds: Seq<char>, defs: Seq<CmdInfo>) -> Seq<char>
    decreases defs.len(),
{
    if defs.len() == 0 {
        seq![]
    } else {
        fish_cmds(cmds, defs.drop_last()) + "complete -c fp-appimage-updater -n '"@ + fish_top(cmds) + "' -a '"@
            + defs.last().name@ + "'\n"@
            + fish_opt_lines("__fish_seen_subcommand_from "@ + defs.last().name@, strs_view(defs.last().opts@))
    }
}

/// The fish script before trimming.
pub open spec fn fish_script(cmds: Seq<char>, globals: Seq<Seq<char>>, defs: Seq<CmdInfo>) -> Seq<char> {
    "complete -c fp-appimage-updater -f\n"@ + fish_opt_lines(fish_top(cmds), globals) + fish_cmds(cmds, defs)
}

/// The completion script for `shell`, written from the commands `defs` and the
/// options `global_opts` that every command takes, or `None` for a shell without one.
pub open spec fn completion_spec(shell: Seq<char>, defs: Seq<CmdInfo>, global_opts: Seq<&str>) -> Option<Seq<char>> {
    let cmds = joined(cmd_names(defs), " "@);
    if shell == "bash"@ {
        Some(trim(bash_script(cmds, joined(strs_view(global_opts), " "@), bash_cases(defs))))
    } else if shell == "zsh"@ {
        Some(trim(zsh_script(cmds, zsh_cases(defs))))
    } else if shell == "fish"@ {
        Some(trim(fish_script(cmds, strs_view(global_opts), defs)))
    } else {
        None
    }
}

fn cmd_names_text(defs: &[CmdInfo]) -> (r: Vec<char>)
    ensures
        r@ == joined(cmd_names(defs@), " "@),
{
    let mut names: Vec<&str> = Vec::new();
    let mut i: usize = 0;
    while i < defs.len()
        invariant
            i <= defs.len(),
            names@.len() == i,
            strs_view(names@) == cmd_names(defs@).take(i as int),
        decreases defs.len() - i,
    {
        let ghost before = names@;
        let n: &str = defs[i].name;
        assert(n@ == defs@[i as int].name@);
        names.push(n);
        assert(names@[i as int]@ == defs@[i as int].name@);
        assert(names@.len() == i + 1);
        assert forall|k: int| 0 <= k <= i implies #[trigger] strs_view(names@)[k] == cmd_names(defs@).take(i + 1)[k] by {
            if k < i {
                assert(strs_view(before)[k] == cmd_names(defs@).take(i as int)[k]);
            }
        }
        assert(strs_view(names@) =~= cmd_names(defs@).take(i + 1));
        i = i + 1;
    }
    assert(cmd_names(defs@).take(defs.len() as int) =~= cmd_names(defs@));
    join_strs(&names, &lit(" "))
}

fn fish_opt_line_exec(condition: &[char], opt: &str) -> (r: Vec<char>)
    ensures
        r@ == fish_opt_line(condition@, opt@),
{
    let o = chars_of(opt);
    proof {
        reveal_strlit("--");
        reveal_strlit("-");
    }
    if starts_with(&o, &lit("--")) {
        let rest = slice_copy(&o, 2, o.len());
        cat(&cat(&cat(&cat(&lit("complete -c fp-appimage-updater -n '"), condition), &lit("' -l '")), &rest), &lit("'\n"))
    } else if starts_with(&o, &lit("-")) {
        let rest = slice_copy(&o, 1, o.len());
        cat(&cat(&cat(&cat(&lit("complete -c fp-appimage-updater -n '"), condition), &lit("' -o '")), &rest), &lit("'\n"))
    } else {
        Vec::new()
    }
}

fn fish_opt_lines_exec(condition: &[char], opts: &[&str]) -> (r: Vec<char>)
    ensures
        r@ == fish_opt_lines(condition@, strs_view(opts@)),
{
    let ghost all = strs_view(opts@);
    let mut out: Vec<char> = Vec::new();
    let mut i: usize = 0;
    while i < opts.len()
        invariant
            i <= opts.len(),
            all == strs_view(opts@),
            out@ == fish_opt_lines(condition@, all.take(i as int)),
        decreases opts.len() - i,
    {
        proof {
            assert(all.take(i + 1).drop_last() =~= all.take(i as int));
            assert(all.take(i + 1).last() == opts@[i as int]@);
        }
        let line = fish_opt_line_exec(condition, opts[i]);
        push_all(&mut out, &line);
        i = i + 1;
    }
    assert(all.take(opts.len() as int) =~= all);
    out
}

/// The completion script for `shell` (`bash`, `zsh` or `fish`), trimmed, written from
/// the commands `defs` and the options `global_opts` that every command takes.
pub fn completion_script(shell: &str, defs: &[CmdInfo], global_opts: &[&str]) -> (r: Result<String, String>)
    ensures
        match completion_spec(shell@, defs@, global_opts@) {
            Some(s) => r matches Ok(t) && t@ == s,
            None => r matches Err(m) && m@ == "Unsupported shell: "@ + shell@,
        },
{
    let sh = chars_of(shell);
    let cmds = cmd_names_text(defs);
    proof {
        reveal_strlit("bash");
        reveal_strlit("zsh");
        reveal_strlit("fish");
    }
    if crate::text::eq(&sh, &lit("bash")) {
        let globals = join_strs(global_opts, &lit(" "));
        let mut cases: Vec<char> = Vec::new();
        let mut i: usize = 0;
        while i < defs.len()
            invariant
                i <= defs.len(),
                cases@ == bash_cases(defs@.take(i as int)),
            decreases defs.len() - i,
        {
            proof {
                assert(defs@.take(i + 1).drop_last() =~= defs@.take(i as int));
                assert(defs@.take(i + 1).last() == defs@[i as int]);
            }
            let opts = join_strs(&defs[i].opts, &lit(" "));
            let arm = cat(&cat(&cat(&cat(&lit("        "), &chars_of(defs[i].name)), &lit(")\n            opts=\"")), &opts), &lit("\"\n            ;;\n"));
            let ghost before = cases@;
            push_all(&mut cases, &arm);
            assert(cases@ =~= before + "        "@ + defs@[i as int].name@ + ")\n            opts=\""@ + opts@ + "\"\n            ;;\n"@);
            i = i + 1;
        }
        assert(defs@.take(defs.len() as int) =~= defs@);
        let s = cat(&cat(&cat(&cat(&cat(&cat(&lit("\n_fp_appimage_updater() {\n    local cur prev cmds opts global_opts subcommand\n    COMPREPLY=()\n    cur=\"${COMP_WORDS[COMP_CWORD]}\"\n    prev=\"${COMP_WORDS[COMP_CWORD-1]}\"\n    \n    cmds=\""), &cmds), &lit("\"\n    global_opts=\"")), &globals), &lit("\"\n\n    if [[ ${COMP_CWORD} -eq 1 ]]; then\n        if [[ ${cur} == -* ]]; then\n            COMPREPLY=( $(compgen -W \"${global_opts}\" -- \"${cur}\") )\n        else\n            COMPREPLY=( $(compgen -W \"${cmds} ${global_opts}\" -- \"${cur}\") )\n        fi\n        return 0\n    fi\n\n    subcommand=\"${COMP_WORDS[1]}\"\n    case \"${subcommand}\" in\n")), &cases), &lit("        *)\n            opts=\"\"\n            ;;\n    esac\n\n    if [[ ${cur} == -* ]]; then\n        COMPREPLY=( $(compgen -W \"${opts} ${global_opts}\" -- \"${cur}\") )\n    else\n        COMPREPLY=( $(compgen -W \"${opts}\" -- \"${cur}\") )\n    fi\n}\ncomplete -F _fp_appimage_updater fp-appimage-updater\n"));
        Ok(string_of(&trim_exec(&s)))
    } else if crate::text::eq(&sh, &lit("zsh")) {
        let mut cases: Vec<char> = Vec::new();
        let mut i: usize = 0;
        while i < defs.len()
            invariant
                i <= defs.len(),
                cases@ == zsh_cases(defs@.take(i as int)),
            decreases defs.len() - i,
        {
            proof {
                assert(defs@.take(i + 1).drop_last() =~= defs@.take(i as int));
                assert(defs@.take(i + 1).last() == defs@[i as int]);
            }
            let opts = join_strs(&defs[i].opts, &lit(" "));
            let arm = cat(&cat(&cat(&cat(&lit("                "), &chars_of(defs[i].name)), &lit(") _arguments '*: :(")), &opts), &lit(")' ;;\n"));
            let ghost before = cases@;
            push_all(&mut cases, &arm);
            assert(cases@ =~= before + "                "@ + defs@[i as int].name@ + ") _arguments '*: :("@ + opts@ + ")' ;;\n"@);
            i = i + 1;
        }
        assert(defs@.take(defs.len() as int) =~= defs@);
        let s = cat(&cat(&cat(&cat(&lit("\n#compdef fp-appimage-updater\n_fp_appimage_updater() {\n    local curcontext=\"$curcontext\" state line\n    typeset -A opt_args\n\n    _arguments -C \\\n        '1: :("), &cmds), &lit(")' \\\n        '*: :->args'\n\n    case $state in\n        args)\n            case $line[1] in\n")), &cases), &lit("            esac\n            ;;\n    esac\n}\nif [[ \"$funcstack[1]\" == \"_fp_appimage_updater\" ]]; then\n    _fp_appimage_updater \"$@\"\nelse\n    compdef _fp_appimage_updater fp-appimage-updater\nfi\n"));
        Ok(string_of(&trim_exec(&s)))
    } else if crate::text::eq(&sh, &lit("fish")) {
        let top = cat(&lit("not __fish_seen_subcommand_from "), &cmds);
        let mut s = lit("complete -c fp-appimage-updater -f\n");
        let g = fish_opt_lines_exec(&top, global_opts);
        push_all(&mut s, &g);
        let ghost head = s@;
        let mut body: Vec<char> = Vec::new();
        let mut i: usize = 0;
        while i < defs.len()
            invariant
                i <= defs.len(),
                top@ == fish_top(cmds@),
                body@ == fish_cmds(cmds@, defs@.take(i as int)),
            decreases defs.len() - i,
        {
            proof {
                assert(defs@.take(i + 1).drop_last() =~= defs@.take(i as int));
                assert(defs@.take(i + 1).last() == defs@[i as int]);
            }
            let name = chars_of(defs[i].name);
            let line = cat(&cat(&cat(&cat(&lit("complete -c fp-appimage-updater -n '"), &top), &lit("' -a '")), &name), &lit("'\n"));
            let cond = cat(&lit("__fish_seen_subcommand_from "), &name);
            let opt_lines = fish_opt_lines_exec(&cond, &defs[i].opts);
            let ghost before = body@;
            push_all(&mut body, &line);
            push_all(&mut body, &opt_lines);
            assert(body@ =~= before + "complete -c fp-appimage-updater -n '"@ + fish_top(cmds@) + "' -a '"@
                + defs@[i as int].name@ + "'\n"@
                + fish_opt_lines("__fish_seen_subcommand_from "@ + defs@[i as int].name@, strs_view(defs@[i as int].opts@)));
            i = i + 1;
        }
        assert(defs@.take(defs.len() as int) =~= defs@);
        push_all(&mut s, &body);
        Ok(string_of(&trim_exec(&s)))
    } else {
        Err(string_of(&cat(&lit("Unsupported shell: "), &sh)))
    }
}

} // verus!

//! `dfm completion` — the shell completion scripts.
//!
//! The scripts complete subcommands, flags and profile names; profile names
//! come from `dfm list`, run against `$DFM_DIR` (default: the current
//! directory).

use vstd::prelude::*;

use super::args::{CompletionArgs, Ctx};
use crate::iostreams::IoStreamsView;
use crate::text::{chars_of, debug_quoted, debug_quoted_text, push_str, str_eq, string_of};

verus! {

/// The bash completion script.
pub const BASH: &'static str = r#"# bash completion for dfm
_dfm_profiles() {
    dfm -C "${DFM_DIR:-.}" --color never list 2>/dev/null \
        | sed -e 's/^Profiles: //' -e 's/, /\n/g' \
        | grep -v '^No profiles found$'
}

_dfm() {
    local cur prev
    cur="${COMP_WORDS[COMP_CWORD]}"
    prev="${COMP_WORDS[COMP_CWORD-1]}"
    case "$prev" in
        --color) COMPREPLY=($(compgen -W "auto always never" -- "$cur")); return ;;
        -C|--dir) COMPREPLY=($(compgen -d -- "$cur")); return ;;
        -c|--config) COMPREPLY=($(compgen -f -- "$cur")); return ;;
        completion) COMPREPLY=($(compgen -W "bash zsh fish" -- "$cur")); return ;;
    esac
    if [ "$COMP_CWORD" -eq 1 ]; then
        COMPREPLY=($(compgen -W "apply diff doctor status list completion -C --dir -c --config --verbose -q --quiet --color --help --version" -- "$cur"))
        return
    fi
    case "${COMP_WORDS[1]}" in
        apply) COMPREPLY=($(compgen -W "--dry-run --no-shell $(_dfm_profiles)" -- "$cur")) ;;
        diff) COMPREPLY=($(compgen -W "$(_dfm_profiles)" -- "$cur")) ;;
    esac
}
complete -F _dfm dfm
"#;

/// The zsh completion script.
pub const ZSH: &'static str = r#"#compdef dfm
_dfm_profiles() {
    local -a profiles
    local listed
    listed="$(dfm -C "${DFM_DIR:-.}" --color never list 2>/dev/null)"
    listed="${listed#Profiles: }"
    [[ "$listed" == "No profiles found" ]] && listed=""
    profiles=(${(s:, :)listed})
    _describe 'profile' profiles
}

_dfm() {
    local -a commands
    commands=(
        'apply:Apply one or more profiles'
        'diff:Show planned changes without writing'
        'doctor:Verify installed symlinks still resolve'
        'status:Show last applied profiles'
        'list:List available profiles'
        'completion:Output a shell completion script'
    )
    _arguments -C \
        '(-C --dir)'{-C,--dir}'[base directory]:directory:_files -/' \
        '(-c --config)'{-c,--config}'[explicit config path]:file:_files' \
        '--verbose[enable debug logging]' \
        '(-q --quiet)'{-q,--quiet}'[suppress progress output]' \
        '--color[colorize output]:when:(auto always never)' \
        '1:command:->command' \
        '*::arg:->args'
    case $state in
        command) _describe 'command' commands ;;
        args)
            case $words[1] in
                apply) _arguments '--dry-run[report planned changes]' '--no-shell[skip shell directives]' '*:profile:_dfm_profiles' ;;
                diff) _arguments '*:profile:_dfm_profiles' ;;
                completion) _values 'shell' bash zsh fish ;;
            esac
            ;;
    esac
}
compdef _dfm dfm
"#;

/// The fish completion script.
pub const FISH: &'static str = r#"# fish completion for dfm
function __dfm_profiles
    set -l dir .
    set -q DFM_DIR; and set dir $DFM_DIR
    dfm -C $dir --color never list 2>/dev/null | string replace -r '^Profiles: ' '' | string split ', ' | string match -v 'No profiles found'
end

complete -c dfm -f
complete -c dfm -n __fish_use_subcommand -a apply -d 'Apply one or more profiles'
complete -c dfm -n __fish_use_subcommand -a diff -d 'Show planned changes without writing'
complete -c dfm -n __fish_use_subcommand -a doctor -d 'Verify installed symlinks still resolve'
complete -c dfm -n __fish_use_subcommand -a status -d 'Show last applied profiles'
complete -c dfm -n __fish_use_subcommand -a list -d 'List available profiles'
complete -c dfm -n __fish_use_subcommand -a completion -d 'Output a shell completion script'
complete -c dfm -s C -l dir -r -a '(__fish_complete_directories)' -d 'Base directory'
complete -c dfm -s c -l config -r -F -d 'Explicit config path'
complete -c dfm -l verbose -d 'Enable debug logging'
complete -c dfm -s q -l quiet -d 'Suppress progress output'
complete -c dfm -l color -x -a 'auto always never' -d 'Colorize output'
complete -c dfm -n '__fish_seen_subcommand_from apply' -l dry-run -d 'Report planned changes'
complete -c dfm -n '__fish_seen_subcommand_from apply' -l no-shell -d 'Skip shell directives'
complete -c dfm -n '__fish_seen_subcommand_from apply diff' -a '(__dfm_profiles)'
complete -c dfm -n '__fish_seen_subcommand_from completion' -a 'bash zsh fish'
"#;

/// What `str::to_lowercase` returns for `s`.
pub uninterp spec fn lowercase_text(s: Seq<char>) -> Seq<char>;

/// `str::to_lowercase`. Only the name of the result is claimed.
#[verifier::external_body]
fn lowercase(s: &str) -> (r: String)
    ensures
        r@ == lowercase_text(s@),
{
    s.to_lowercase()
}

/// The script for a shell name (already lowercased), if it is one of the
/// three supported.
pub open spec fn script_for(name: Seq<char>) -> Option<Seq<char>> {
    if name == "bash"@ {
        Some(BASH@)
    } else if name == "zsh"@ {
        Some(ZSH@)
    } else if name == "fish"@ {
        Some(FISH@)
    } else {
        None
    }
}

/// The refusal of an unsupported shell.
pub open spec fn unknown_shell_text(name: Seq<char>) -> Seq<char> {
    "unknown shell "@ + debug_quoted_text(name) + " \u{2014} supported: bash, zsh, fish"@
}

/// Write the completion script for the requested shell (matched without
/// regard to case) to the data stream; an unsupported shell is an error and
/// nothing is written.
pub fn run(args: &CompletionArgs, ctx: &mut Ctx) -> (r: Result<(), String>)
    ensures
        final(ctx).globals == old(ctx).globals,
        match script_for(lowercase_text(args.shell@)) {
            Some(script) => r is Ok && final(ctx).io@ == (IoStreamsView {
                out: old(ctx).io@.out + script,
                ..old(ctx).io@
            }),
            None => r matches Err(m) && m@ == unknown_shell_text(lowercase_text(args.shell@))
                && final(ctx).io@ == old(ctx).io@,
        },
{
    let name = lowercase(args.shell.as_str());
    let script: &str = if str_eq(name.as_str(), "bash") {
        BASH
    } else if str_eq(name.as_str(), "zsh") {
        ZSH
    } else if str_eq(name.as_str(), "fish") {
        FISH
    } else {
        let mut m = chars_of("unknown shell ");
        push_str(&mut m, debug_quoted(name.as_str()).as_str());
        push_str(&mut m, " \u{2014} supported: bash, zsh, fish");
        return Err(string_of(m.as_slice()));
    };
    ctx.io.write_out(script);
    Ok(())
}

} // verus!

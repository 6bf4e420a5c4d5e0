use vstd::prelude::*;

verus! {

/// Host identity resolution, first match wins: the environment override,
/// then the primary mounted file, then the secondary mounted file, then the
/// local hostname command's output, and the literal fallback where all four
/// are absent.
pub open spec fn resolve_spec(
    env: Option<Seq<char>>,
    primary: Option<Seq<char>>,
    secondary: Option<Seq<char>>,
    tool: Option<Seq<char>>,
) -> Seq<char> {
    if env is Some {
        env->Some_0
    } else if primary is Some {
        primary->Some_0
    } else if secondary is Some {
        secondary->Some_0
    } else if tool is Some {
        tool->Some_0
    } else {
        "unknown"@
    }
}

/// Picks the host identity from the resolution chain's findings; mirrors
/// `resolve_spec` exactly.
pub fn resolve_nodename(
    env: Option<String>,
    primary: Option<String>,
    secondary: Option<String>,
    tool: Option<String>,
) -> (r: String)
    ensures
        r@ == resolve_spec(
            env.deep_view(),
            primary.deep_view(),
            secondary.deep_view(),
            tool.deep_view(),
        ),
{
    match env {
        Some(s) => s,
        None => match primary {
            Some(s) => s,
            None => match secondary {
                Some(s) => s,
                None => match tool {
                    Some(s) => s,
                    None => "unknown".to_owned(),
                },
            },
        },
    }
}

} // verus!

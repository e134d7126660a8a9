//! Where a Chromium browser is looked for.
use vstd::prelude::*;

verus! {

/// The systems that are told apart.
#[derive(Debug, Clone, Copy, PartialEq, Eq, Structural)]
pub enum Platform {
    Windows,
    Macos,
    OtherUnix,
    Other,
}

/// A place to look: a file below the directory that a variable of the environment
/// names, by the place of the variable; a file; or a program on the search path.
#[derive(Debug)]
pub enum Candidate {
    Below(usize, &'static str),
    File(&'static str),
    OnPath(&'static str),
}

/// What a place to look stands for.
pub enum CandidateView {
    Below(int, Seq<char>),
    File(Seq<char>),
    OnPath(Seq<char>),
}

impl View for Candidate {
    type V = CandidateView;

    open spec fn view(&self) -> CandidateView {
        match self {
            Candidate::Below(base, rest) => CandidateView::Below(*base as int, rest@),
            Candidate::File(path) => CandidateView::File(path@),
            Candidate::OnPath(name) => CandidateView::OnPath(name@),
        }
    }
}

/// The places to look below the directories of programs that the environment
/// names, in their order.
pub open spec fn below_bases(named: Seq<bool>) -> Seq<CandidateView>
    decreases named.len(),
{
    if named.len() == 0 {
        Seq::empty()
    } else {
        let before = below_bases(named.drop_last());
        let base = named.len() - 1;
        if named.last() {
            before.push(
                CandidateView::Below(base, "Microsoft/Edge/Application/msedge.exe"@),
            ).push(CandidateView::Below(base, "Google/Chrome/Application/chrome.exe"@))
        } else {
            before
        }
    }
}

/// The places to look, first to last.
pub open spec fn candidates_of(platform: Platform, named: Seq<bool>) -> Seq<CandidateView> {
    match platform {
        Platform::Windows => below_bases(named) + seq![
            CandidateView::OnPath("msedge.exe"@),
            CandidateView::OnPath("chrome.exe"@),
        ],
        Platform::Macos => seq![
            CandidateView::File("/Applications/Google Chrome.app/Contents/MacOS/Google Chrome"@),
            CandidateView::File(
                "/Applications/Microsoft Edge.app/Contents/MacOS/Microsoft Edge"@,
            ),
        ],
        Platform::OtherUnix => seq![
            CandidateView::OnPath("google-chrome"@),
            CandidateView::OnPath("google-chrome-stable"@),
            CandidateView::OnPath("chromium"@),
            CandidateView::OnPath("chromium-browser"@),
        ],
        Platform::Other => Seq::empty(),
    }
}

/// What the candidates stand for.
pub open spec fn views(candidates: Seq<Candidate>) -> Seq<CandidateView> {
    Seq::new(candidates.len(), |i: int| candidates[i]@)
}

fn add_candidate(candidates: &mut Vec<Candidate>, candidate: Candidate)
    ensures
        views(final(candidates)@) == views(old(candidates)@).push(candidate@),
{
    let ghost before = views(candidates@);
    let ghost added = candidate@;
    candidates.push(candidate);
    assert(views(candidates@) =~= before.push(added));
}

/// The variables of the environment that name directories of programs, in the order
/// of asking for them.
pub fn program_variables() -> (variables: [&'static str; 3])
    ensures
        variables@[0]@ == "PROGRAMFILES"@,
        variables@[1]@ == "PROGRAMFILES(X86)"@,
        variables@[2]@ == "LOCALAPPDATA"@,
{
    ["PROGRAMFILES", "PROGRAMFILES(X86)", "LOCALAPPDATA"]
}

/// The places to look, first to last. `named` says which of the variables that name
/// directories of programs are set; what they hold need not be text.
pub fn chromium_candidates(platform: Platform, named: &Vec<bool>) -> (candidates: Vec<Candidate>)
    ensures
        views(candidates@) == candidates_of(platform, named@),
{
    let mut candidates: Vec<Candidate> = Vec::new();
    assert(views(candidates@) =~= Seq::<CandidateView>::empty());
    match platform {
        Platform::Windows => {
            let mut i: usize = 0;
            assert(named@.take(0) =~= Seq::<bool>::empty());
            while i < named.len()
                invariant
                    i <= named@.len(),
                    views(candidates@) == below_bases(named@.take(i as int)),
                decreases named@.len() - i,
            {
                assert(named@.take(i + 1).drop_last() =~= named@.take(i as int));
                if named[i] {
                    add_candidate(
                        &mut candidates,
                        Candidate::Below(i, "Microsoft/Edge/Application/msedge.exe"),
                    );
                    add_candidate(
                        &mut candidates,
                        Candidate::Below(i, "Google/Chrome/Application/chrome.exe"),
                    );
                }
                i = i + 1;
            }
            assert(named@.take(i as int) =~= named@);
            add_candidate(&mut candidates, Candidate::OnPath("msedge.exe"));
            add_candidate(&mut candidates, Candidate::OnPath("chrome.exe"));
        },
        Platform::Macos => {
            add_candidate(
                &mut candidates,
                Candidate::File("/Applications/Google Chrome.app/Contents/MacOS/Google Chrome"),
            );
            add_candidate(
                &mut candidates,
                Candidate::File("/Applications/Microsoft Edge.app/Contents/MacOS/Microsoft Edge"),
            );
        },
        Platform::OtherUnix => {
            add_candidate(&mut candidates, Candidate::OnPath("google-chrome"));
            add_candidate(&mut candidates, Candidate::OnPath("google-chrome-stable"));
            add_candidate(&mut candidates, Candidate::OnPath("chromium"));
            add_candidate(&mut candidates, Candidate::OnPath("chromium-browser"));
        },
        Platform::Other => {},
    }
    assert(views(candidates@) =~= candidates_of(platform, named@));
    candidates
}

/// Where a browser is looked for on Windows: below each directory for programs that
/// is named, the one browser and then the other, in the order of the directories,
/// and then on the path.
pub proof fn law_browsers_are_looked_for_below_named_directories(named: Seq<bool>, more: bool)
    ensures
        below_bases(Seq::empty()).len() == 0,
        more ==> below_bases(named.push(more)) == below_bases(named) + seq![
            CandidateView::Below(
                named.len() as int,
                "Microsoft/Edge/Application/msedge.exe"@,
            ),
            CandidateView::Below(named.len() as int, "Google/Chrome/Application/chrome.exe"@),
        ],
        !more ==> below_bases(named.push(more)) == below_bases(named),
        candidates_of(Platform::Windows, named) == below_bases(named) + seq![
            CandidateView::OnPath("msedge.exe"@),
            CandidateView::OnPath("chrome.exe"@),
        ],
{
    assert(named.push(more).drop_last() =~= named);
    if more {
        let before = below_bases(named);
        assert(below_bases(named.push(more)) =~= before + seq![
            CandidateView::Below(
                named.len() as int,
                "Microsoft/Edge/Application/msedge.exe"@,
            ),
            CandidateView::Below(named.len() as int, "Google/Chrome/Application/chrome.exe"@),
        ]);
    }
}

/// Elsewhere a browser is looked for where such systems keep it, whatever is named,
/// and on a system that is not known nowhere.
pub proof fn law_browsers_are_looked_for_where_systems_keep_them(named: Seq<bool>)
    ensures
        candidates_of(Platform::Macos, named) == seq![
            CandidateView::File("/Applications/Google Chrome.app/Contents/MacOS/Google Chrome"@),
            CandidateView::File(
                "/Applications/Microsoft Edge.app/Contents/MacOS/Microsoft Edge"@,
            ),
        ],
        candidates_of(Platform::OtherUnix, named) == seq![
            CandidateView::OnPath("google-chrome"@),
            CandidateView::OnPath("google-chrome-stable"@),
            CandidateView::OnPath("chromium"@),
            CandidateView::OnPath("chromium-browser"@),
        ],
        candidates_of(Platform::Other, named).len() == 0,
{
}

/// The directories for programs are named by these variables, in this order.
pub proof fn law_program_directories_are_named(variables: [&'static str; 3])
    requires
        call_ensures(program_variables, (), variables),
    ensures
        variables@[0]@ == "PROGRAMFILES"@ && variables@[1]@ == "PROGRAMFILES(X86)"@
            && variables@[2]@ == "LOCALAPPDATA"@,
{
}

} // verus!

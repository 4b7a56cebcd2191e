use crate::args::{flags_of, parsed, strings_view, Args, ArgsError};
use crate::fileset::{build, built, nested_view};
use crate::options::{common, opt_seq, OptEnum, OptSet};
use vstd::prelude::*;

verus! {

/// A parsed command line and the files it selects.
pub struct App {
    pub args: Args,
    /// The selected files, each once.
    pub files: Vec<String>,
}

/// Why no `App` could be made.
#[derive(Debug)]
pub enum AppError {
    /// The command line names an unknown option.
    Args(ArgsError),
    /// A wildcard pattern is malformed; the specification is kept.
    Pattern(String),
}

/// `hits[k]` is what `resolve` returned for `specs[k]`, for every `k`.
pub open spec fn resolved_by<F: Fn(&String) -> Option<Vec<String>>>(
    resolve: F,
    specs: Seq<String>,
    hits: Seq<Vec<String>>,
) -> bool {
    &&& hits.len() == specs.len()
    &&& forall|k: int|
        0 <= k < specs.len() ==> resolve.ensures((&specs[k],), Some(#[trigger] hits[k]))
}

/// `resolve` found the pattern of some specification of `specs` malformed.
pub open spec fn refused_by<F: Fn(&String) -> Option<Vec<String>>>(
    resolve: F,
    specs: Seq<String>,
    spec: Seq<char>,
) -> bool {
    exists|k: int|
        0 <= k < specs.len() && (#[trigger] specs[k])@ == spec && resolve.ensures(
            (&specs[k],),
            None::<Vec<String>>,
        )
}

impl App {
    /// Parses the command line (program name first) and builds the file set:
    /// every specification to take is resolved by `resolve` and added, then
    /// every specification to skip is resolved and taken out. `resolve`
    /// answers `None` for a malformed pattern, which stops the build.
    pub fn create<F: Fn(&String) -> Option<Vec<String>>>(args: Vec<String>, resolve: F) -> (r:
        Result<App, AppError>)
        requires
            forall|s: &String| #[trigger] resolve.requires((s,)),
        ensures
            match parsed(strings_view(args@)) {
                None => r is Err && r->Err_0 is Args,
                Some(a) => match r {
                    Ok(app) => {
                        &&& app.args@ == a
                        &&& strings_view(app.files@).no_duplicates()
                        &&& exists|taken: Seq<Vec<String>>, skipped: Seq<Vec<String>>|
                            {
                                &&& resolved_by(resolve, app.args.files@, taken)
                                &&& resolved_by(resolve, app.args.exclude_files@, skipped)
                                &&& strings_view(app.files@).to_set() == built(
                                    nested_view(taken),
                                    nested_view(skipped),
                                )
                            }
                    },
                    Err(e) => e is Pattern && exists|specs: Seq<String>|
                        {
                            &&& strings_view(specs) == a.files || strings_view(specs)
                                == a.exclude_files
                            &&& refused_by(resolve, specs, e->Pattern_0@)
                        },
                },
            },
    {
        let args = match Args::parse_vec(args) {
            Ok(a) => a,
            Err(e) => {
                return Err(AppError::Args(e));
            },
        };
        let taken = match Self::resolve_all(&args.files, &resolve) {
            Ok(t) => t,
            Err(s) => {
                return Err(AppError::Pattern(s));
            },
        };
        let skipped = match Self::resolve_all(&args.exclude_files, &resolve) {
            Ok(t) => t,
            Err(s) => {
                return Err(AppError::Pattern(s));
            },
        };
        let set = build(&taken, &skipped);
        let files = set.to_vec();
        let app = App { args, files };
        assert(resolved_by(resolve, app.args.files@, taken@));
        assert(resolved_by(resolve, app.args.exclude_files@, skipped@));
        Ok(app)
    }

    fn resolve_all<F: Fn(&String) -> Option<Vec<String>>>(specs: &Vec<String>, resolve: &F) -> (r:
        Result<Vec<Vec<String>>, String>)
        requires
            forall|s: &String| #[trigger] resolve.requires((s,)),
        ensures
            match r {
                Ok(v) => resolved_by(*resolve, specs@, v@),
                Err(s) => refused_by(*resolve, specs@, s@),
            },
    {
        let mut r: Vec<Vec<String>> = Vec::new();
        let mut i: usize = 0;
        while i < specs.len()
            invariant
                0 <= i <= specs.len(),
                forall|s: &String| #[trigger] resolve.requires((s,)),
                resolved_by(*resolve, specs@.take(i as int), r@),
            decreases specs.len() - i,
        {
            match resolve(&specs[i]) {
                Some(hits) => {
                    r.push(hits);
                },
                None => {
                    return Err(specs[i].clone());
                },
            }
            i = i + 1;
        }
        assert(specs@.take(i as int) =~= specs@);
        Ok(r)
    }

    /// The timestamp attributes that the command line selects; none in list
    /// mode.
    pub fn get_options(&self) -> (r: OptSet)
        ensures
            r == flags_of(self.args@),
    {
        self.args.flags()
    }

    /// The attributes to set on each file, in the order access,
    /// modification, creation: those selected that the platform supports.
    pub fn touch_plan(&self, supported: &OptSet) -> (r: Vec<OptEnum>)
        ensures
            r@ == opt_seq(common(flags_of(self.args@), *supported)),
    {
        self.get_options().intersect(supported).to_vec()
    }
}

} // verus!

//! The device description's options, their marked choices, and the job's
//! option overrides that resolve them.
use vstd::prelude::*;
use vstd::slice::slice_to_vec;
use vstd::string::StringSliceAdditionalSpecFns;
use crate::text::{bytes_eq, parse_i32, parse_i32_spec, text_bytes};

verus! {

/// What an option of the device description is, mathematically.
pub ghost struct OptionModel {
    pub keyword: Seq<u8>,
    pub default_choice: Seq<u8>,
    pub marked: Option<Seq<u8>>,
}

/// One option declared by the device description, with its default choice
/// and the choice currently marked, if any.
pub struct PpdOption {
    pub keyword: Vec<u8>,
    pub default_choice: Vec<u8>,
    pub marked: Option<Vec<u8>>,
}

impl View for PpdOption {
    type V = OptionModel;

    open spec fn view(&self) -> OptionModel {
        OptionModel {
            keyword: self.keyword@,
            default_choice: self.default_choice@,
            marked: match self.marked {
                Some(m) => Some(m@),
                None => None,
            },
        }
    }
}

impl PpdOption {
    /// A declared option with nothing marked yet.
    pub fn new(keyword: Vec<u8>, default_choice: Vec<u8>) -> (r: PpdOption)
        ensures
            r@ == (OptionModel { keyword: keyword@, default_choice: default_choice@, marked: None }),
    {
        PpdOption { keyword, default_choice, marked: None }
    }
}

/// A device description: the printer's model number and its options.
pub struct PpdFile {
    pub model_number: i32,
    pub options: Vec<PpdOption>,
}

impl PpdFile {
    pub open spec fn options_view(&self) -> Seq<OptionModel> {
        self.options@.map_values(|o: PpdOption| o@)
    }

    /// A device description with the given options, none of them marked
    /// unless the options say so.
    pub fn new(model_number: i32, options: Vec<PpdOption>) -> (r: PpdFile)
        ensures
            r.model_number == model_number,
            r.options_view() == options@.map_values(|o: PpdOption| o@),
    {
        PpdFile { model_number, options }
    }
}

/// One job override: an option name and the choice asked for.
pub struct OptionEntry {
    pub name: Vec<u8>,
    pub value: Vec<u8>,
}

/// The job's option overrides, in the order in which they were given.
pub struct Options {
    pub entries: Vec<OptionEntry>,
}

impl View for Options {
    type V = Seq<(Seq<u8>, Seq<u8>)>;

    open spec fn view(&self) -> Seq<(Seq<u8>, Seq<u8>)> {
        self.entries@.map_values(|e: OptionEntry| (e.name@, e.value@))
    }
}

impl Options {
    /// No overrides.
    pub fn new() -> (r: Options)
        ensures
            r@ == Seq::<(Seq<u8>, Seq<u8>)>::empty(),
    {
        Options { entries: Vec::new() }
    }

    /// Adds an override after those already held.
    pub fn push(&mut self, name: Vec<u8>, value: Vec<u8>)
        ensures
            final(self)@ == old(self)@.push((name@, value@)),
    {
        self.entries.push(OptionEntry { name, value });
        proof {
            assert(self@ =~= old(self)@.push((name@, value@)));
        }
    }

    /// The number of overrides.
    pub fn len(&self) -> (r: usize)
        ensures
            r == self@.len(),
    {
        self.entries.len()
    }
}

/// The marked choice of the first option from index `i` on whose keyword is
/// `kw`; `None` where there is no such option or it has nothing marked.
pub open spec fn marked_from(opts: Seq<OptionModel>, kw: Seq<u8>, i: int) -> Option<Seq<u8>>
    decreases opts.len() - i,
{
    if i < 0 || i >= opts.len() {
        None
    } else if opts[i].keyword == kw {
        opts[i].marked
    } else {
        marked_from(opts, kw, i + 1)
    }
}

/// The marked choice of the option named `kw`.
pub open spec fn marked_choice(opts: Seq<OptionModel>, kw: Seq<u8>) -> Option<Seq<u8>> {
    marked_from(opts, kw, 0)
}

/// The value of the last of the first `n` overrides that is named `kw`.
pub open spec fn override_upto(ovs: Seq<(Seq<u8>, Seq<u8>)>, kw: Seq<u8>, n: int) -> Option<
    Seq<u8>,
>
    decreases n,
{
    if n <= 0 || n > ovs.len() {
        None
    } else if ovs[n - 1].0 == kw {
        Some(ovs[n - 1].1)
    } else {
        override_upto(ovs, kw, n - 1)
    }
}

/// The value of the last override named `kw`: a later override wins.
pub open spec fn last_override(ovs: Seq<(Seq<u8>, Seq<u8>)>, kw: Seq<u8>) -> Option<Seq<u8>> {
    override_upto(ovs, kw, ovs.len() as int)
}

/// An option with its default choice marked.
pub open spec fn with_default(o: OptionModel) -> OptionModel {
    OptionModel { marked: Some(o.default_choice), ..o }
}

/// An option with the overrides applied: the last override named after it,
/// if any, becomes its marked choice.
pub open spec fn with_overrides(o: OptionModel, ovs: Seq<(Seq<u8>, Seq<u8>)>) -> OptionModel {
    match last_override(ovs, o.keyword) {
        Some(v) => OptionModel { marked: Some(v), ..o },
        None => o,
    }
}

/// The effective configuration: every option's default marked, then the
/// overrides applied.
pub open spec fn resolved(opts: Seq<OptionModel>, ovs: Seq<(Seq<u8>, Seq<u8>)>) -> Seq<
    OptionModel,
> {
    opts.map_values(|o: OptionModel| with_overrides(with_default(o), ovs))
}

/// The marker text that stands for "no explicit choice".
pub open spec fn default_marker() -> Seq<u8> {
    "Default".spec_bytes()
}

/// What reading a marked choice as an integer yields, unless it is the
/// `default` marker: `Some(None)` where nothing is marked or the marker is,
/// `Some(Some(v))` where the choice reads as `v`, and `None` where it does
/// not read as an integer.
pub open spec fn unless_default(m: Option<Seq<u8>>, default: Seq<u8>) -> Option<Option<i32>> {
    match m {
        None => Some(None),
        Some(c) => if c == default {
            Some(None)
        } else {
            match parse_i32_spec(c) {
                Some(v) => Some(Some(v)),
                None => None,
            }
        },
    }
}

/// An explicit choice that does not read as the number it should be.
pub struct ChoiceParseError {
    pub choice: Vec<u8>,
}

/// A choice marked for an option, as found in the device description.
pub struct PpdChoice {
    pub value: Vec<u8>,
}

impl View for PpdChoice {
    type V = Seq<u8>;

    open spec fn view(&self) -> Seq<u8> {
        self.value@
    }
}

impl PpdChoice {
    /// The chosen value.
    pub fn choice(&self) -> (r: &[u8])
        ensures
            r@ == self@,
    {
        self.value.as_slice()
    }

    /// Reads the chosen value as an integer, unless it equals `default`:
    /// `Ok(None)` where it does, `Ok(Some(v))` where it reads as `v`, and an
    /// error that carries the value otherwise.
    pub fn parse_if_not(&self, default: &[u8]) -> (r: Result<Option<i32>, ChoiceParseError>)
        ensures
            match unless_default(Some(self@), default@) {
                Some(x) => r == Ok::<Option<i32>, ChoiceParseError>(x),
                None => r is Err && r->Err_0.choice@ == self@,
            },
    {
        if bytes_eq(self.value.as_slice(), default) {
            Ok(None)
        } else {
            match parse_i32(self.value.as_slice()) {
                Some(v) => Ok(Some(v)),
                None => Err(ChoiceParseError { choice: slice_to_vec(self.value.as_slice()) }),
            }
        }
    }
}

impl PpdFile {
    /// Clears every marked choice and marks each option's default.
    pub fn mark_defaults(&mut self)
        ensures
            final(self).model_number == old(self).model_number,
            final(self).options_view() == old(self).options_view().map_values(
                |o: OptionModel| with_default(o),
            ),
    {
        let n = self.options.len();
        let mut i: usize = 0;
        while i < n
            invariant
                n == self.options@.len(),
                i <= n,
                self.model_number == old(self).model_number,
                forall|j: int|
                    0 <= j < i ==> #[trigger] self.options@[j]@ == with_default(
                        old(self).options@[j]@,
                    ),
                forall|j: int|
                    i <= j < n ==> #[trigger] self.options@[j]@ == old(self).options@[j]@,
            decreases n - i,
        {
            assert(self.options@[i as int]@ == old(self).options@[i as int]@);
            let o = PpdOption {
                keyword: slice_to_vec(self.options[i].keyword.as_slice()),
                default_choice: slice_to_vec(self.options[i].default_choice.as_slice()),
                marked: Some(slice_to_vec(self.options[i].default_choice.as_slice())),
            };
            let ghost prev = self.options@;
            self.options[i] = o;
            i = i + 1;
        }
        proof {
            assert(self.options_view() =~= old(self).options_view().map_values(
                |o: OptionModel| with_default(o),
            ));
        }
    }

    /// Marks the choices that the job's overrides name. An override whose
    /// name no option has is ignored; of two overrides of one option, the
    /// later wins.
    pub fn mark_options(&mut self, options: &Options)
        ensures
            final(self).model_number == old(self).model_number,
            final(self).options_view() == old(self).options_view().map_values(
                |o: OptionModel| with_overrides(o, options@),
            ),
    {
        let n = self.options.len();
        let m = options.entries.len();
        let mut i: usize = 0;
        while i < n
            invariant
                n == self.options@.len(),
                m == options@.len(),
                i <= n,
                self.model_number == old(self).model_number,
                forall|j: int|
                    0 <= j < i ==> #[trigger] self.options@[j]@ == with_overrides(
                        old(self).options@[j]@,
                        options@,
                    ),
                forall|j: int|
                    i <= j < n ==> #[trigger] self.options@[j]@ == old(self).options@[j]@,
            decreases n - i,
        {
            let ghost kw = self.options@[i as int].keyword@;
            let mut k: usize = m;
            let mut hit: Option<usize> = None;
            while hit.is_none() && k > 0
                invariant
                    k <= m,
                    m == options@.len(),
                    i < n,
                    n == self.options@.len(),
                    kw == self.options@[i as int].keyword@,
                    match hit {
                        Some(j) => j < m && last_override(options@, kw) == Some(options@[j as int].1),
                        None => last_override(options@, kw) == override_upto(options@, kw, k as int),
                    },
                decreases k + (if hit is None { 1int } else { 0int }),
            {
                if bytes_eq(options.entries[k - 1].name.as_slice(), self.options[i].keyword.as_slice()) {
                    hit = Some(k - 1);
                } else {
                    k = k - 1;
                }
            }
            match hit {
                Some(j) => {
                    assert(self.options@[i as int]@ == old(self).options@[i as int]@);
                    let o = PpdOption {
                        keyword: slice_to_vec(self.options[i].keyword.as_slice()),
                        default_choice: slice_to_vec(self.options[i].default_choice.as_slice()),
                        marked: Some(slice_to_vec(options.entries[j].value.as_slice())),
                    };
                    self.options[i] = o;
                },
                None => {},
            }
            i = i + 1;
        }
        proof {
            assert(self.options_view() =~= old(self).options_view().map_values(
                |o: OptionModel| with_overrides(o, options@),
            ));
        }
    }

    /// Resolves the effective configuration: marks every default, then the
    /// job's overrides.
    pub fn resolve(&mut self, options: &Options)
        ensures
            final(self).model_number == old(self).model_number,
            final(self).options_view() == resolved(old(self).options_view(), options@),
    {
        self.mark_defaults();
        self.mark_options(options);
        proof {
            assert(self.options_view() =~= resolved(old(self).options_view(), options@));
        }
    }

    /// The choice marked for the option named `keyword`; `None` where no
    /// option has that name or it has nothing marked.
    pub fn find_marked_choice(&self, keyword: &[u8]) -> (r: Option<PpdChoice>)
        ensures
            match marked_choice(self.options_view(), keyword@) {
                Some(c) => r is Some && r->Some_0@ == c,
                None => r is None,
            },
    {
        let n = self.options.len();
        let mut i: usize = 0;
        while i < n
            invariant
                n == self.options@.len(),
                i <= n,
                marked_choice(self.options_view(), keyword@) == marked_from(
                    self.options_view(),
                    keyword@,
                    i as int,
                ),
            decreases n - i,
        {
            if bytes_eq(self.options[i].keyword.as_slice(), keyword) {
                return match &self.options[i].marked {
                    Some(m) => Some(PpdChoice { value: slice_to_vec(m.as_slice()) }),
                    None => None,
                };
            }
            i = i + 1;
        }
        None
    }

    /// Reads the choice marked for `keyword` as an integer, unless it is
    /// `default`: `Ok(None)` where nothing is marked or the marked choice is
    /// `default`, `Ok(Some(v))` where it reads as `v`, and an error that
    /// carries the choice where it does not read as an integer.
    pub fn parse_optional_marked_choice(&self, keyword: &[u8], default: &[u8]) -> (r: Result<
        Option<i32>,
        ChoiceParseError,
    >)
        ensures
            match unless_default(marked_choice(self.options_view(), keyword@), default@) {
                Some(x) => r == Ok::<Option<i32>, ChoiceParseError>(x),
                None => r is Err && Some(r->Err_0.choice@) == marked_choice(
                    self.options_view(),
                    keyword@,
                ),
            },
    {
        match self.find_marked_choice(keyword) {
            Some(choice) => choice.parse_if_not(default),
            None => Ok(None),
        }
    }

    /// `parse_optional_marked_choice` with the conventional marker text
    /// `Default`.
    pub fn parse_default_marked_choice(&self, keyword: &[u8]) -> (r: Result<
        Option<i32>,
        ChoiceParseError,
    >)
        ensures
            match unless_default(marked_choice(self.options_view(), keyword@), default_marker()) {
                Some(x) => r == Ok::<Option<i32>, ChoiceParseError>(x),
                None => r is Err && Some(r->Err_0.choice@) == marked_choice(
                    self.options_view(),
                    keyword@,
                ),
            },
    {
        self.parse_optional_marked_choice(keyword, text_bytes("Default"))
    }
}

/// Resolving is idempotent: resolving an already resolved configuration
/// again with the same overrides changes nothing.
pub proof fn lemma_resolve_idempotent(opts: Seq<OptionModel>, ovs: Seq<(Seq<u8>, Seq<u8>)>)
    ensures
        resolved(resolved(opts, ovs), ovs) == resolved(opts, ovs),
{
    assert(resolved(resolved(opts, ovs), ovs) =~= resolved(opts, ovs));
}

/// Resolving is deterministic: two descriptions that declare the same
/// options with the same defaults resolve to the same configuration under
/// the same overrides, whatever was marked in them before.
pub proof fn lemma_resolve_deterministic(
    a: Seq<OptionModel>,
    b: Seq<OptionModel>,
    ovs: Seq<(Seq<u8>, Seq<u8>)>,
)
    requires
        a.len() == b.len(),
        forall|i: int|
            0 <= i < a.len() ==> #[trigger] a[i].keyword == b[i].keyword && a[i].default_choice
                == b[i].default_choice,
    ensures
        resolved(a, ovs) == resolved(b, ovs),
{
    assert(resolved(a, ovs) =~= resolved(b, ovs));
}

} // verus!

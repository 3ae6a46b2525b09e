//! The public download API: command-line arguments and their validation, and the
//! fluent builders that configure a download.
//!
//! Running a download (channels, tasks, the terminal display) is done by the
//! caller with the configuration these builders produce.

use vstd::prelude::*;
use std::path::PathBuf;
use std::time::Duration;
use crate::builder::InternalProgressBuilder;
use crate::calculator::progress_calculator::{ProgressCalculator, is_model_result};
use crate::results::{ModelResult, ZeroOneOrMany};
use crate::text::{
    append_str, contains_str, decimal, ends_with, has_prefix, has_substring, has_suffix, starts_with,
    trim_whitespace, trim_ws, write_decimal,
};

verus! {

/// Arguments of the command-line program.
#[derive(Debug, Clone)]
pub struct UnifiedArgs {
    /// Models to download
    pub models: Vec<String>,
    /// Quantization format to download (e.g. Q4_K_M, Q8_0, F16)
    pub quant: Option<String>,
    /// Force redownload by clearing the cache first
    pub force: bool,
    /// Use the TUI instead of the CLI display
    pub tui: bool,
    /// Verbose output
    pub verbose: bool,
}

/// The problem with the model name at `index`, if any: empty (after trimming
/// white space), or holding "..", or starting or ending with "/".
pub open spec fn model_name_problem(model: Seq<char>, index: nat) -> Option<Seq<char>> {
    if trim_ws(model).len() == 0 {
        Some("Model name at index "@ + decimal(index) + " cannot be empty or whitespace only"@)
    } else if has_substring(model, ".."@) || has_prefix(model, "/"@) || has_suffix(model, "/"@) {
        Some("Model name '"@ + model + "' contains invalid path characters"@)
    } else {
        None
    }
}

/// The problem with the first bad model name, if any.
pub open spec fn first_model_problem(models: Seq<String>) -> Option<Seq<char>>
    decreases models.len(),
{
    if models.len() == 0 {
        None
    } else {
        match first_model_problem(models.drop_last()) {
            Some(e) => Some(e),
            None => model_name_problem(models.last()@, (models.len() - 1) as nat),
        }
    }
}

/// The outcome of validating arguments.
pub open spec fn args_check(a: UnifiedArgs) -> Result<(), Seq<char>> {
    if a.models@.len() == 0 {
        Err("At least one model must be specified"@)
    } else {
        match first_model_problem(a.models@) {
            Some(e) => Err(e),
            None => match a.quant {
                Some(q) => if trim_ws(q@).len() == 0 {
                    Err("Quantization format cannot be empty when specified"@)
                } else {
                    Ok(())
                },
                None => Ok(()),
            },
        }
    }
}

/// The names left after trimming white space from each model name and dropping
/// the empty ones, in order.
pub open spec fn normalized_names(models: Seq<String>) -> Seq<Seq<char>>
    decreases models.len(),
{
    if models.len() == 0 {
        Seq::empty()
    } else {
        let rest = normalized_names(models.drop_last());
        let t = trim_ws(models.last()@);
        if t.len() == 0 {
            rest
        } else {
            rest.push(t)
        }
    }
}

fn check_model_name(model: &String, index: usize) -> (r: Option<String>)
    ensures
        match r {
            Some(e) => model_name_problem(model@, index as nat) == Some(e@),
            None => model_name_problem(model@, index as nat) is None,
        },
{
    let trimmed = trim_whitespace(model.as_str());
    if trimmed.as_str().unicode_len() == 0 {
        let mut e = String::from_str("Model name at index ");
        write_decimal(&mut e, index as u64);
        append_str(&mut e, " cannot be empty or whitespace only");
        return Some(e);
    }
    if contains_str(model.as_str(), "..") || starts_with(model.as_str(), "/") || ends_with(
        model.as_str(),
        "/",
    ) {
        let mut e = String::from_str("Model name '");
        append_str(&mut e, model.as_str());
        append_str(&mut e, "' contains invalid path characters");
        return Some(e);
    }
    None
}

impl UnifiedArgs {
    /// Validate the arguments: at least one model, every model name non-blank and
    /// free of "..", leading and trailing "/", and a quantization, when given,
    /// non-blank. The error describes the first problem found.
    pub fn validate(&self) -> (r: Result<(), String>)
        ensures
            match r {
                Ok(()) => args_check(*self) == Ok::<(), Seq<char>>(()),
                Err(e) => args_check(*self) == Err::<(), Seq<char>>(e@),
            },
    {
        if self.models.len() == 0 {
            return Err(String::from_str("At least one model must be specified"));
        }
        let mut i: usize = 0;
        while i < self.models.len()
            invariant
                i <= self.models@.len(),
                first_model_problem(self.models@.take(i as int)) is None,
            decreases self.models@.len() - i,
        {
            assert(self.models@.take(i + 1).drop_last() =~= self.models@.take(i as int));
            match check_model_name(&self.models[i], i) {
                Some(e) => {
                    proof {
                        lemma_first_problem_at(self.models@, i as int);
                    }
                    return Err(e);
                },
                None => {},
            }
            i = i + 1;
        }
        assert(self.models@.take(self.models@.len() as int) =~= self.models@);
        match &self.quant {
            Some(q) => {
                let t = trim_whitespace(q.as_str());
                if t.as_str().unicode_len() == 0 {
                    Err(String::from_str("Quantization format cannot be empty when specified"))
                } else {
                    Ok(())
                }
            },
            None => Ok(()),
        }
    }

    /// The model names with white space trimmed, empty ones dropped.
    pub fn normalized_models(&self) -> (r: Vec<String>)
        ensures
            r@.map_values(|s: String| s@) == normalized_names(self.models@),
    {
        let mut r: Vec<String> = Vec::new();
        let mut i: usize = 0;
        while i < self.models.len()
            invariant
                i <= self.models@.len(),
                r@.map_values(|s: String| s@) == normalized_names(self.models@.take(i as int)),
            decreases self.models@.len() - i,
        {
            assert(self.models@.take(i + 1).drop_last() =~= self.models@.take(i as int));
            let t = trim_whitespace(self.models[i].as_str());
            if t.as_str().unicode_len() > 0 {
                r.push(t);
            }
            assert(r@.map_values(|s: String| s@) =~= normalized_names(self.models@.take(i + 1)));
            i = i + 1;
        }
        assert(self.models@.take(self.models@.len() as int) =~= self.models@);
        r
    }

    /// The models as one or many: a single model is `One`, otherwise `Many`.
    pub fn models_as_one_or_many(&self) -> (r: ZeroOneOrMany<String>)
        ensures
            self.models@.len() == 1 ==> r == ZeroOneOrMany::One(self.models@[0]),
            self.models@.len() != 1 ==> (r matches ZeroOneOrMany::Many(v) && v@ == self.models@),
    {
        if self.models.len() == 1 {
            ZeroOneOrMany::One(self.models[0].clone())
        } else {
            ZeroOneOrMany::Many(clone_names(&self.models))
        }
    }
}

proof fn lemma_first_problem_at(models: Seq<String>, i: int)
    requires
        0 <= i < models.len(),
        first_model_problem(models.take(i)) is None,
        model_name_problem(models[i]@, i as nat) is Some,
    ensures
        first_model_problem(models) == model_name_problem(models[i]@, i as nat),
    decreases models.len(),
{
    if i + 1 == models.len() {
        assert(models.drop_last() =~= models.take(i));
    } else {
        assert(models.drop_last().take(i) =~= models.take(i));
        lemma_first_problem_at(models.drop_last(), i);
    }
}

fn clone_names(v: &Vec<String>) -> (r: Vec<String>)
    ensures
        r@ == v@,
{
    let mut r: Vec<String> = Vec::new();
    let mut i: usize = 0;
    while i < v.len()
        invariant
            i <= v@.len(),
            r@ == v@.take(i as int),
        decreases v@.len() - i,
    {
        r.push(v[i].clone());
        assert(r@ =~= v@.take(i + 1));
        i = i + 1;
    }
    assert(v@.take(v@.len() as int) =~= v@);
    r
}

/// Entry point of the fluent download API.
pub struct ProgressHub;

impl ProgressHub {
    /// A new builder with CLI progress display.
    pub fn builder() -> (b: CliBuilder)
        ensures
            b.models@.len() == 0,
            b.quantization is None,
            !b.force,
    {
        CliBuilder::new()
    }
}

/// Builder of a download with the CLI progress display.
#[derive(Debug, Clone)]
pub struct CliBuilder {
    /// Models to download
    pub models: Vec<String>,
    /// Quantization filter
    pub quantization: Option<String>,
    /// Force redownload by clearing the cache
    pub force: bool,
}

/// Configuration of a download with the CLI progress display.
#[derive(Debug, Clone)]
pub struct CliProgressBuilder {
    /// Models to download
    pub models: Vec<String>,
    /// Quantization filter
    pub quantization: Option<String>,
    /// Force redownload by clearing the cache
    pub force: bool,
}

/// Builder of a download whose results are returned to the program.
#[derive(Debug, Clone)]
pub struct ReceiverBuilder {
    /// Quantization filter
    pub quantization: Option<String>,
    /// Force redownload by clearing the cache
    pub force: bool,
    /// Destination directory
    pub destination: Option<PathBuf>,
}

impl CliBuilder {
    /// An empty builder.
    pub fn new() -> (b: Self)
        ensures
            b.models@.len() == 0,
            b.quantization is None,
            !b.force,
    {
        CliBuilder { models: Vec::new(), quantization: None, force: false }
    }

    /// Add a model to download.
    pub fn model(self, model: &str) -> (b: Self)
        ensures
            b.models@.len() == self.models@.len() + 1,
            b.models@.drop_last() == self.models@,
            b.models@.last()@ == model@,
            b.quantization == self.quantization,
            b.force == self.force,
    {
        let mut models = self.models;
        models.push(String::from_str(model));
        CliBuilder { models, quantization: self.quantization, force: self.force }
    }

    /// Set the quantization filter.
    pub fn quantization(self, quant: &str) -> (b: Self)
        ensures
            b.models == self.models,
            b.quantization matches Some(q) && q@ == quant@,
            b.force == self.force,
    {
        CliBuilder { models: self.models, quantization: Some(String::from_str(quant)), force: self.force }
    }

    /// Force redownload by clearing the cache.
    pub fn force(self, force: bool) -> (b: Self)
        ensures
            b.models == self.models,
            b.quantization == self.quantization,
            b.force == force,
    {
        CliBuilder { models: self.models, quantization: self.quantization, force }
    }

    /// Download with the CLI progress display.
    pub fn with_cli_progress(self) -> (b: CliProgressBuilder)
        ensures
            b.models == self.models,
            b.quantization == self.quantization,
            b.force == self.force,
    {
        CliProgressBuilder { models: self.models, quantization: self.quantization, force: self.force }
    }

    /// Build a receiver-based download; the models are given when downloading.
    pub fn build(self) -> (b: ReceiverBuilder)
        ensures
            b.quantization == self.quantization,
            b.force == self.force,
            b.destination is None,
    {
        ReceiverBuilder::new(self.models, self.quantization, self.force)
    }
}

impl ReceiverBuilder {
    /// A receiver-based download configuration (the models are given when
    /// downloading).
    pub fn new(models: Vec<String>, quantization: Option<String>, force: bool) -> (b: Self)
        ensures
            b.quantization == quantization,
            b.force == force,
            b.destination is None,
    {
        ReceiverBuilder { quantization, force, destination: None }
    }

    /// Set the destination directory.
    pub fn destination(self, dest: PathBuf) -> (b: Self)
        ensures
            b.quantization == self.quantization,
            b.force == self.force,
            b.destination == Some(dest),
    {
        ReceiverBuilder { quantization: self.quantization, force: self.force, destination: Some(dest) }
    }
}

impl CliProgressBuilder {
    /// The download can start: at least one model is given; otherwise the error
    /// to report.
    pub fn check_models(&self) -> (r: Result<(), String>)
        ensures
            r is Ok == (self.models@.len() > 0),
            r matches Err(e) ==> e@ == "At least one model must be specified"@,
    {
        if self.models.len() == 0 {
            Err(String::from_str("At least one model must be specified"))
        } else {
            Ok(())
        }
    }
}

fn clone_quantization(q: &Option<String>) -> (r: Option<String>)
    ensures
        r == *q,
{
    match q {
        Some(s) => Some(s.clone()),
        None => None,
    }
}

impl CliProgressBuilder {
    /// The configuration of the download run for these models, or the error for
    /// a download without models.
    pub fn progress_builder(&self) -> (r: Result<InternalProgressBuilder, String>)
        ensures
            r is Ok == (self.models@.len() > 0),
            r matches Err(e) ==> e@ == "At least one model must be specified"@,
            r matches Ok(b) ==> b.models@ == self.models@ && b.quantization == self.quantization && b.force
                == self.force && b.destination is None && !b.verbose,
    {
        if self.models.len() == 0 {
            return Err(String::from_str("At least one model must be specified"));
        }
        Ok(
            InternalProgressBuilder {
                models: clone_names(&self.models),
                quantization: clone_quantization(&self.quantization),
                destination: None,
                force: self.force,
                verbose: false,
            },
        )
    }
}

impl ReceiverBuilder {
    /// The configuration of the download run for `models` with this builder's
    /// quantization and force flag.
    pub fn progress_builder(&self, models: Vec<String>) -> (b: InternalProgressBuilder)
        ensures
            b.models == models,
            b.quantization == self.quantization,
            b.force == self.force,
            b.destination is None,
            !b.verbose,
    {
        InternalProgressBuilder {
            models,
            quantization: clone_quantization(&self.quantization),
            destination: None,
            force: self.force,
            verbose: false,
        }
    }
}

/// The results of a download from the last progress snapshot received: the
/// results of each of its models, or an error when no snapshot arrived.
pub fn download_outcome(last: Option<ProgressCalculator>, total_duration: Duration) -> (r: Result<
    ZeroOneOrMany<ModelResult>,
    String,
>)
    ensures
        r is Ok == last is Some,
        r matches Err(e) ==> e@ == "No progress events received - download may have failed to start"@,
        r matches Ok(res) ==> {
            let c = last->0;
            &&& res.items().len() == c.progress_state@.models.len()
            &&& forall|i: int|
                0 <= i < res.items().len() ==> is_model_result(
                    #[trigger] res.items()[i],
                    c.progress_state@.models[i],
                    c.model_data.current_model_id@,
                    total_duration,
                )
        },
{
    match last {
        Some(c) => Ok(c.to_model_results(total_duration)),
        None => Err(String::from_str("No progress events received - download may have failed to start")),
    }
}

/// Colors of the terminal theme.
#[derive(Debug, Clone, Copy, PartialEq, Eq, Structural)]
pub enum ThemeColor {
    Green,
    Cyan,
    Yellow,
    Red,
    Blue,
    White,
}

/// Kinds of themed terminal text.
#[derive(Debug, Clone, Copy, PartialEq, Eq, Structural)]
pub enum TextKind {
    Success,
    Info,
    Warning,
    Error,
    Accent,
    Muted,
    Plain,
}

/// How a kind of text is styled: a foreground color (none for plain text),
/// intense or dimmed.
#[derive(Debug, Clone, Copy, PartialEq, Eq, Structural)]
pub struct TextStyle {
    pub color: Option<ThemeColor>,
    pub intense: bool,
    pub dimmed: bool,
}

/// The style of each kind of text: success bright green, info bright cyan,
/// warning bright yellow, error bright red, accent bright blue, muted dimmed
/// white, plain unstyled.
pub open spec fn theme_style(kind: TextKind) -> TextStyle {
    match kind {
        TextKind::Success => TextStyle { color: Some(ThemeColor::Green), intense: true, dimmed: false },
        TextKind::Info => TextStyle { color: Some(ThemeColor::Cyan), intense: true, dimmed: false },
        TextKind::Warning => TextStyle { color: Some(ThemeColor::Yellow), intense: true, dimmed: false },
        TextKind::Error => TextStyle { color: Some(ThemeColor::Red), intense: true, dimmed: false },
        TextKind::Accent => TextStyle { color: Some(ThemeColor::Blue), intense: true, dimmed: false },
        TextKind::Muted => TextStyle { color: Some(ThemeColor::White), intense: false, dimmed: true },
        TextKind::Plain => TextStyle { color: None, intense: false, dimmed: false },
    }
}

/// The style of a kind of text.
pub fn style_for(kind: TextKind) -> (s: TextStyle)
    ensures
        s == theme_style(kind),
{
    match kind {
        TextKind::Success => TextStyle { color: Some(ThemeColor::Green), intense: true, dimmed: false },
        TextKind::Info => TextStyle { color: Some(ThemeColor::Cyan), intense: true, dimmed: false },
        TextKind::Warning => TextStyle { color: Some(ThemeColor::Yellow), intense: true, dimmed: false },
        TextKind::Error => TextStyle { color: Some(ThemeColor::Red), intense: true, dimmed: false },
        TextKind::Accent => TextStyle { color: Some(ThemeColor::Blue), intense: true, dimmed: false },
        TextKind::Muted => TextStyle { color: Some(ThemeColor::White), intense: false, dimmed: true },
        TextKind::Plain => TextStyle { color: None, intense: false, dimmed: false },
    }
}

} // verus!

//! Dockerfile instructions: their parsed parameters, keywords and locations.

use vstd::prelude::*;
use crate::text::view_lines;
use crate::yaml::Span;

verus! {

/// A parsed Dockerfile instruction with its parameters.
#[derive(Debug, Clone, PartialEq, Eq)]
pub enum InstructionKind {
    /// `FROM [--platform=..] image [AS stage]`
    From { image: String, platform: Option<String>, stage_alias: Option<String> },
    /// `RUN command`
    Run { command: Vec<String>, is_exec_form: bool },
    /// `COPY [--from=stage] [--chown=owner] src... dest`
    Copy {
        sources: Vec<String>,
        destination: String,
        from_stage: Option<String>,
        chown: Option<String>,
    },
    /// `ADD [--chown=owner] src... dest`
    Add { sources: Vec<String>, destination: String, chown: Option<String> },
    /// `CMD ...`
    Cmd { arguments: Vec<String>, is_exec_form: bool },
    /// `ENTRYPOINT ...`
    Entrypoint { arguments: Vec<String>, is_exec_form: bool },
    /// `ENV key=value ...` or `ENV key value`
    Env { pairs: Vec<(String, String)> },
    /// `ARG name[=default]`
    Arg { name: String, default_value: Option<String> },
    /// `EXPOSE port[/protocol] ...`
    Expose { ports: Vec<String> },
    /// `LABEL key=value ...`
    Label { pairs: Vec<(String, String)> },
    /// `USER user[:group]`
    User { user: String, group: Option<String> },
    /// `WORKDIR path`
    Workdir { path: String },
    /// `HEALTHCHECK [options] CMD command` or `HEALTHCHECK NONE`
    Healthcheck {
        is_none: bool,
        interval: Option<String>,
        timeout: Option<String>,
        start_period: Option<String>,
        retries: Option<usize>,
        command: Vec<String>,
    },
    /// `STOPSIGNAL signal`
    Stopsignal { signal: String },
    /// `SHELL [...]`
    Shell { shell: Vec<String> },
    /// `VOLUME ...`
    Volume { paths: Vec<String> },
    /// `ONBUILD instruction`
    Onbuild { trigger: String },
    /// Any other instruction: its uppercase keyword and its argument text.
    Raw { keyword: String, payload: String },
}

/// The value of an instruction, with texts as character sequences.
pub enum KindView {
    From { image: Seq<char>, platform: Option<Seq<char>>, stage_alias: Option<Seq<char>> },
    Run { command: Seq<Seq<char>>, is_exec_form: bool },
    Copy {
        sources: Seq<Seq<char>>,
        destination: Seq<char>,
        from_stage: Option<Seq<char>>,
        chown: Option<Seq<char>>,
    },
    Add { sources: Seq<Seq<char>>, destination: Seq<char>, chown: Option<Seq<char>> },
    Cmd { arguments: Seq<Seq<char>>, is_exec_form: bool },
    Entrypoint { arguments: Seq<Seq<char>>, is_exec_form: bool },
    Env { pairs: Seq<(Seq<char>, Seq<char>)> },
    Arg { name: Seq<char>, default_value: Option<Seq<char>> },
    Expose { ports: Seq<Seq<char>> },
    Label { pairs: Seq<(Seq<char>, Seq<char>)> },
    User { user: Seq<char>, group: Option<Seq<char>> },
    Workdir { path: Seq<char> },
    Healthcheck {
        is_none: bool,
        interval: Option<Seq<char>>,
        timeout: Option<Seq<char>>,
        start_period: Option<Seq<char>>,
        retries: Option<usize>,
        command: Seq<Seq<char>>,
    },
    Stopsignal { signal: Seq<char> },
    Shell { shell: Seq<Seq<char>> },
    Volume { paths: Seq<Seq<char>> },
    Onbuild { trigger: Seq<char> },
    Raw { keyword: Seq<char>, payload: Seq<char> },
}

/// The characters of an optional text.
pub open spec fn opt_view(o: Option<String>) -> Option<Seq<char>> {
    match o {
        Some(s) => Some(s@),
        None => None,
    }
}

/// The characters of a list of text pairs.
pub open spec fn pairs_view(v: Seq<(String, String)>) -> Seq<(Seq<char>, Seq<char>)> {
    v.map_values(|p: (String, String)| (p.0@, p.1@))
}

impl View for InstructionKind {
    type V = KindView;

    open spec fn view(&self) -> KindView {
        match *self {
            InstructionKind::From { image, platform, stage_alias } => KindView::From {
                image: image@,
                platform: opt_view(platform),
                stage_alias: opt_view(stage_alias),
            },
            InstructionKind::Run { command, is_exec_form } => KindView::Run {
                command: view_lines(command@),
                is_exec_form,
            },
            InstructionKind::Copy { sources, destination, from_stage, chown } => KindView::Copy {
                sources: view_lines(sources@),
                destination: destination@,
                from_stage: opt_view(from_stage),
                chown: opt_view(chown),
            },
            InstructionKind::Add { sources, destination, chown } => KindView::Add {
                sources: view_lines(sources@),
                destination: destination@,
                chown: opt_view(chown),
            },
            InstructionKind::Cmd { arguments, is_exec_form } => KindView::Cmd {
                arguments: view_lines(arguments@),
                is_exec_form,
            },
            InstructionKind::Entrypoint { arguments, is_exec_form } => KindView::Entrypoint {
                arguments: view_lines(arguments@),
                is_exec_form,
            },
            InstructionKind::Env { pairs } => KindView::Env { pairs: pairs_view(pairs@) },
            InstructionKind::Arg { name, default_value } => KindView::Arg {
                name: name@,
                default_value: opt_view(default_value),
            },
            InstructionKind::Expose { ports } => KindView::Expose { ports: view_lines(ports@) },
            InstructionKind::Label { pairs } => KindView::Label { pairs: pairs_view(pairs@) },
            InstructionKind::User { user, group } => KindView::User {
                user: user@,
                group: opt_view(group),
            },
            InstructionKind::Workdir { path } => KindView::Workdir { path: path@ },
            InstructionKind::Healthcheck {
                is_none,
                interval,
                timeout,
                start_period,
                retries,
                command,
            } => KindView::Healthcheck {
                is_none,
                interval: opt_view(interval),
                timeout: opt_view(timeout),
                start_period: opt_view(start_period),
                retries,
                command: view_lines(command@),
            },
            InstructionKind::Stopsignal { signal } => KindView::Stopsignal { signal: signal@ },
            InstructionKind::Shell { shell } => KindView::Shell { shell: view_lines(shell@) },
            InstructionKind::Volume { paths } => KindView::Volume { paths: view_lines(paths@) },
            InstructionKind::Onbuild { trigger } => KindView::Onbuild { trigger: trigger@ },
            InstructionKind::Raw { keyword, payload } => KindView::Raw {
                keyword: keyword@,
                payload: payload@,
            },
        }
    }
}

/// The keyword of an instruction (`RAW` for unrecognized ones).
pub open spec fn keyword_of(k: KindView) -> Seq<char> {
    match k {
        KindView::From { .. } => "FROM"@,
        KindView::Run { .. } => "RUN"@,
        KindView::Copy { .. } => "COPY"@,
        KindView::Add { .. } => "ADD"@,
        KindView::Cmd { .. } => "CMD"@,
        KindView::Entrypoint { .. } => "ENTRYPOINT"@,
        KindView::Env { .. } => "ENV"@,
        KindView::Arg { .. } => "ARG"@,
        KindView::Expose { .. } => "EXPOSE"@,
        KindView::Label { .. } => "LABEL"@,
        KindView::User { .. } => "USER"@,
        KindView::Workdir { .. } => "WORKDIR"@,
        KindView::Healthcheck { .. } => "HEALTHCHECK"@,
        KindView::Stopsignal { .. } => "STOPSIGNAL"@,
        KindView::Shell { .. } => "SHELL"@,
        KindView::Volume { .. } => "VOLUME"@,
        KindView::Onbuild { .. } => "ONBUILD"@,
        KindView::Raw { .. } => "RAW"@,
    }
}

impl InstructionKind {
    /// The uppercase instruction keyword.
    pub fn keyword(&self) -> (r: &'static str)
        ensures
            r@ == keyword_of(self@),
    {
        match self {
            InstructionKind::From { .. } => "FROM",
            InstructionKind::Run { .. } => "RUN",
            InstructionKind::Copy { .. } => "COPY",
            InstructionKind::Add { .. } => "ADD",
            InstructionKind::Cmd { .. } => "CMD",
            InstructionKind::Entrypoint { .. } => "ENTRYPOINT",
            InstructionKind::Env { .. } => "ENV",
            InstructionKind::Arg { .. } => "ARG",
            InstructionKind::Expose { .. } => "EXPOSE",
            InstructionKind::Label { .. } => "LABEL",
            InstructionKind::User { .. } => "USER",
            InstructionKind::Workdir { .. } => "WORKDIR",
            InstructionKind::Healthcheck { .. } => "HEALTHCHECK",
            InstructionKind::Stopsignal { .. } => "STOPSIGNAL",
            InstructionKind::Shell { .. } => "SHELL",
            InstructionKind::Volume { .. } => "VOLUME",
            InstructionKind::Onbuild { .. } => "ONBUILD",
            InstructionKind::Raw { .. } => "RAW",
        }
    }

    /// The displayed form of the instruction: its keyword.
    pub fn to_text(&self) -> (r: String)
        ensures
            r@ == keyword_of(self@),
    {
        self.keyword().to_owned()
    }
}

/// A parsed instruction with its position in the file.
#[derive(Debug, Clone, PartialEq, Eq)]
pub struct DockerfileInstruction {
    /// Zero-based position of the instruction among the parsed instructions.
    pub index: usize,
    /// 1-based line where the instruction starts.
    pub line: usize,
    /// The instruction and its parameters.
    pub kind: InstructionKind,
    /// The logical line's text.
    pub raw: String,
    /// Location in the source.
    pub span: Span,
}

/// The value of a parsed instruction.
pub struct InstrView {
    pub index: usize,
    pub line: usize,
    pub kind: KindView,
    pub raw: Seq<char>,
    pub span: Span,
}

impl View for DockerfileInstruction {
    type V = InstrView;

    open spec fn view(&self) -> InstrView {
        InstrView {
            index: self.index,
            line: self.line,
            kind: self.kind@,
            raw: self.raw@,
            span: self.span,
        }
    }
}

/// The values of a list of instructions.
pub open spec fn instrs_view(v: Seq<DockerfileInstruction>) -> Seq<InstrView> {
    v.map_values(|i: DockerfileInstruction| i@)
}

} // verus!

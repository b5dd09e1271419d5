//! Diagnostics: the facts a diagnostic carries, how its message arguments
//! are shown through a file's span map, and the collection that files them.
use vstd::prelude::*;
use crate::span_map::{segment_at, spec_segment_at, SpanSegment, TextRange};
use crate::targets::copy_bytes;
use crate::node_utils::bytes_equal;

verus! {

/// What a diagnostic needs to be re-created after a module resolution.
#[derive(Debug)]
pub struct RepopulateDiagnosticInfo {
    pub kind: i32,
    pub module_reference: Vec<u8>,
    pub mode: i32,
    pub package_name: Vec<u8>,
}

pub open spec fn same_info(a: RepopulateDiagnosticInfo, b: RepopulateDiagnosticInfo) -> bool {
    a.kind == b.kind && a.module_reference@ == b.module_reference@ && a.mode == b.mode && a.package_name@
        == b.package_name@
}

impl RepopulateDiagnosticInfo {
    pub fn copy(&self) -> (r: RepopulateDiagnosticInfo)
        ensures
            same_info(r, *self),
    {
        RepopulateDiagnosticInfo {
            kind: self.kind,
            module_reference: copy_bytes(&self.module_reference),
            mode: self.mode,
            package_name: copy_bytes(&self.package_name),
        }
    }
}

/// A diagnostic: where it is, what it says, and how it is reported.
#[derive(Debug)]
pub struct Diagnostic {
    pub file: Option<usize>,
    pub loc: TextRange,
    pub code: i32,
    pub category: i32,
    /// The tool that reported it, empty for the compiler.
    pub source: Vec<u8>,
    pub message_text: Vec<u8>,
    pub message_key: Vec<u8>,
    pub message_args: Vec<Vec<u8>>,
    pub reports_unnecessary: bool,
    pub reports_deprecated: bool,
    pub skipped_on_no_emit: bool,
    pub repopulate_info: Option<RepopulateDiagnosticInfo>,
}

/// What a diagnostic's file offers for display: its span map, its text and
/// the original text the span map maps back to.
#[derive(Debug)]
pub struct FileTexts {
    pub span_map: Option<Vec<SpanSegment>>,
    pub text: Vec<u8>,
    pub original_text: Vec<u8>,
}

/// The segment kind of an alias: a virtual name that stands for an original spelling.
pub const KIND_ALIAS: i32 = 2;

/// The alias segment spanning exactly `loc`, if any.
pub open spec fn spec_alias_for_virtual_span(segments: Option<Seq<SpanSegment>>, loc: TextRange) -> Option<SpanSegment> {
    match segments {
        None => None,
        Some(s) => {
            let (index, inside) = spec_segment_at(s, loc.pos as i32);
            if !inside {
                None
            } else {
                let seg = s[index.unwrap() as int];
                if seg.kind == KIND_ALIAS && loc.pos == seg.virtual_start as i64 && loc.end == seg.virtual_end as i64 {
                    Some(seg)
                } else {
                    None
                }
            }
        },
    }
}

pub fn alias_for_virtual_span(segments: Option<&[SpanSegment]>, loc: TextRange) -> (r: Option<SpanSegment>)
    ensures
        r == spec_alias_for_virtual_span(
            match segments {
                Some(s) => Some(s@),
                None => None,
            },
            loc,
        ),
{
    let segments = match segments {
        None => return None,
        Some(s) => s,
    };
    let (index, inside) = segment_at(segments, loc.pos as i32);
    if !inside {
        return None;
    }
    let seg = segments[index.unwrap()];
    if seg.kind == KIND_ALIAS && loc.pos == seg.virtual_start as i64 && loc.end == seg.virtual_end as i64 {
        Some(seg)
    } else {
        None
    }
}

/// A span `start..end` that lies inside a text of length `len`.
pub open spec fn spec_in_range(start: i32, end: i32, len: int) -> bool {
    start >= 0 && end >= 0 && end <= len
}

/// The arguments with every one equal to `from` replaced by `to`.
pub open spec fn spec_replace_args(args: Seq<Seq<u8>>, from: Seq<u8>, to: Seq<u8>) -> Seq<Seq<u8>> {
    Seq::new(args.len(), |i: int| if args[i] == from { to } else { args[i] })
}

pub open spec fn args_view(v: Seq<Vec<u8>>) -> Seq<Seq<u8>> {
    Seq::new(v.len(), |i: int| v[i]@)
}

/// The alias segment whose names a diagnostic's arguments are shown
/// through, when both its spans lie in their texts.
pub open spec fn spec_display_alias(d: Diagnostic, texts: Option<FileTexts>) -> Option<SpanSegment> {
    match texts {
        None => None,
        Some(t) => if d.file is None || d.source@.len() != 0 {
            None
        } else {
            match spec_alias_for_virtual_span(
                match t.span_map {
                    Some(v) => Some(v@),
                    None => None,
                },
                d.loc,
            ) {
                None => None,
                Some(seg) => if spec_in_range(seg.virtual_start, seg.virtual_end, t.text@.len() as int) && spec_in_range(
                    seg.original_start,
                    seg.original_end,
                    t.original_text@.len() as int,
                ) {
                    Some(seg)
                } else {
                    None
                },
            }
        },
    }
}

/// Slicing the names out of the texts needs each span in order.
pub open spec fn spec_display_ok(d: Diagnostic, texts: Option<FileTexts>) -> bool {
    match spec_display_alias(d, texts) {
        None => true,
        Some(seg) => seg.virtual_start <= seg.virtual_end && seg.original_start <= seg.original_end,
    }
}

/// The arguments a diagnostic shows: a virtual name that an alias segment
/// spans is shown as its original spelling.
pub open spec fn spec_display_message_args(d: Diagnostic, texts: Option<FileTexts>) -> Seq<Seq<u8>> {
    match spec_display_alias(d, texts) {
        None => args_view(d.message_args@),
        Some(seg) => {
            let t = texts.unwrap();
            spec_replace_args(
                args_view(d.message_args@),
                t.text@.subrange(seg.virtual_start as int, seg.virtual_end as int),
                t.original_text@.subrange(seg.original_start as int, seg.original_end as int),
            )
        },
    }
}

fn slice_bytes(text: &Vec<u8>, start: i32, end: i32) -> (r: Vec<u8>)
    requires
        0 <= start <= end <= text@.len(),
    ensures
        r@ == text@.subrange(start as int, end as int),
{
    let mut out: Vec<u8> = Vec::new();
    let s = start as usize;
    let e = end as usize;
    let mut i: usize = s;
    while i < e
        invariant
            s <= i <= e,
            e <= text@.len(),
            s == start,
            e == end,
            out@ == text@.subrange(s as int, i as int),
        decreases e - i,
    {
        out.push(text[i]);
        proof { assert(text@.subrange(s as int, i + 1) == text@.subrange(s as int, i as int).push(text@[i as int])); }
        i = i + 1;
    }
    out
}

fn copy_args(args: &Vec<Vec<u8>>) -> (r: Vec<Vec<u8>>)
    ensures
        args_view(r@) == args_view(args@),
{
    let mut out: Vec<Vec<u8>> = Vec::new();
    let mut i: usize = 0;
    while i < args.len()
        invariant
            i <= args@.len(),
            out@.len() == i,
            forall|j: int| 0 <= j < i ==> #[trigger] out@[j]@ == args@[j]@,
        decreases args@.len() - i,
    {
        out.push(copy_bytes(&args[i]));
        i = i + 1;
    }
    proof { assert(args_view(out@) =~= args_view(args@)); }
    out
}

impl Diagnostic {
    /// The repopulation info, as a copy.
    pub fn repopulate_info(&self) -> (r: Option<RepopulateDiagnosticInfo>)
        ensures
            match (r, self.repopulate_info) {
                (None, None) => true,
                (Some(a), Some(b)) => same_info(a, b),
                _ => false,
            },
    {
        match &self.repopulate_info {
            Some(i) => Some(i.copy()),
            None => None,
        }
    }

    pub fn set_repopulate_info(&mut self, info: Option<RepopulateDiagnosticInfo>)
        ensures
            final(self).repopulate_info == info,
            final(self).file == old(self).file && final(self).loc == old(self).loc && final(self).code
                == old(self).code && final(self).category == old(self).category,
            final(self).source == old(self).source,
            final(self).message_text == old(self).message_text,
            final(self).message_key == old(self).message_key,
            final(self).message_args == old(self).message_args,
            final(self).reports_unnecessary == old(self).reports_unnecessary,
            final(self).reports_deprecated == old(self).reports_deprecated,
            final(self).skipped_on_no_emit == old(self).skipped_on_no_emit,
    {
        self.repopulate_info = info;
    }

    /// The message arguments as shown: through the alias segment that spans
    /// the diagnostic exactly, a virtual name is shown as its original
    /// spelling. `texts` is what the diagnostic's file offers, when read.
    pub fn display_message_args(&self, texts: Option<&FileTexts>) -> (r: Vec<Vec<u8>>)
        requires
            spec_display_ok(
                *self,
                match texts {
                    Some(t) => Some(*t),
                    None => None,
                },
            ),
        ensures
            args_view(r@) == spec_display_message_args(
                *self,
                match texts {
                    Some(t) => Some(*t),
                    None => None,
                },
            ),
    {
        let t = match texts {
            None => return copy_args(&self.message_args),
            Some(t) => t,
        };
        if self.file.is_none() || self.source.len() != 0 {
            return copy_args(&self.message_args);
        }
        let segs: Option<&[SpanSegment]> = match &t.span_map {
            Some(v) => Some(v.as_slice()),
            None => None,
        };
        let seg = match alias_for_virtual_span(segs, self.loc) {
            None => return copy_args(&self.message_args),
            Some(seg) => seg,
        };
        let vlen = t.text.len();
        let olen = t.original_text.len();
        let v_ok = seg.virtual_start >= 0 && seg.virtual_end >= 0 && (seg.virtual_end as usize) <= vlen;
        let o_ok = seg.original_start >= 0 && seg.original_end >= 0 && (seg.original_end as usize) <= olen;
        if !v_ok || !o_ok {
            return copy_args(&self.message_args);
        }
        let virtual_name = slice_bytes(&t.text, seg.virtual_start, seg.virtual_end);
        let original_name = slice_bytes(&t.original_text, seg.original_start, seg.original_end);
        let mut out: Vec<Vec<u8>> = Vec::new();
        let mut i: usize = 0;
        while i < self.message_args.len()
            invariant
                i <= self.message_args@.len(),
                out@.len() == i,
                forall|j: int|
                    0 <= j < i ==> #[trigger] out@[j]@ == (if self.message_args@[j]@ == virtual_name@ {
                        original_name@
                    } else {
                        self.message_args@[j]@
                    }),
            decreases self.message_args@.len() - i,
        {
            if bytes_equal(self.message_args[i].as_slice(), virtual_name.as_slice()) {
                out.push(copy_bytes(&original_name));
            } else {
                out.push(copy_bytes(&self.message_args[i]));
            }
            i = i + 1;
        }
        proof {
            assert(args_view(out@) =~= spec_replace_args(args_view(self.message_args@), virtual_name@, original_name@));
        }
        out
    }
}

/// Diagnostics filed by file path, and those of no file, each in the order added.
#[derive(Debug)]
pub struct DiagnosticsCollection {
    pub non_file: Vec<Diagnostic>,
    pub files: Vec<(Vec<u8>, Vec<Diagnostic>)>,
}

/// The buckets by path: the first bucket of a path, or -1.
pub open spec fn spec_bucket_of(files: Seq<(Vec<u8>, Vec<Diagnostic>)>, path: Seq<u8>, n: int) -> int
    decreases n,
{
    if n <= 0 {
        -1
    } else {
        let r = spec_bucket_of(files, path, n - 1);
        if r >= 0 {
            r
        } else if files[n - 1].0@ == path {
            n - 1
        } else {
            -1
        }
    }
}

proof fn lemma_bucket_stable(files: Seq<(Vec<u8>, Vec<Diagnostic>)>, path: Seq<u8>, m: int, n: int)
    requires
        0 <= m <= n,
        spec_bucket_of(files, path, m) >= 0,
    ensures
        spec_bucket_of(files, path, n) == spec_bucket_of(files, path, m),
    decreases n - m,
{
    if n > m {
        lemma_bucket_stable(files, path, m, n - 1);
    }
}

proof fn lemma_bucket_bounds(files: Seq<(Vec<u8>, Vec<Diagnostic>)>, path: Seq<u8>, n: int)
    requires
        0 <= n <= files.len(),
    ensures
        -1 <= spec_bucket_of(files, path, n) < n,
        spec_bucket_of(files, path, n) >= 0 ==> files[spec_bucket_of(files, path, n)].0@ == path,
        spec_bucket_of(files, path, n) == -1 ==> forall|j: int| 0 <= j < n ==> files[j].0@ != path,
    decreases n,
{
    if n > 0 {
        lemma_bucket_bounds(files, path, n - 1);
    }
}

impl DiagnosticsCollection {
    /// Each path has one bucket.
    pub open spec fn wf(&self) -> bool {
        forall|i: int, j: int| 0 <= i < j < self.files@.len() ==> self.files@[i].0@ != self.files@[j].0@
    }

    pub fn new() -> (r: DiagnosticsCollection)
        ensures
            r.non_file@.len() == 0,
            r.files@.len() == 0,
            r.wf(),
    {
        DiagnosticsCollection { non_file: Vec::new(), files: Vec::new() }
    }

    fn find_bucket(&self, path: &[u8]) -> (r: Option<usize>)
        ensures
            r matches Some(i) ==> i < self.files@.len() && i as int == spec_bucket_of(
                self.files@,
                path@,
                self.files@.len() as int,
            ),
            r is None ==> spec_bucket_of(self.files@, path@, self.files@.len() as int) == -1,
    {
        let mut j: usize = 0;
        while j < self.files.len()
            invariant
                j <= self.files@.len(),
                spec_bucket_of(self.files@, path@, j as int) == -1,
            decreases self.files@.len() - j,
        {
            if bytes_equal(self.files[j].0.as_slice(), path) {
                proof { lemma_bucket_stable(self.files@, path@, j + 1, self.files@.len() as int); }
                return Some(j);
            }
            j = j + 1;
        }
        None
    }

    /// Files a diagnostic: under its file's path, or among those of no file.
    pub fn add(&mut self, diagnostic: Diagnostic, path: Option<&[u8]>)
        ensures
            old(self).wf() ==> final(self).wf(),
            path is None ==> final(self).non_file@ == old(self).non_file@.push(diagnostic),
            path is None ==> final(self).files@ == old(self).files@,
            path is Some ==> final(self).non_file@ == old(self).non_file@,
            path is Some && spec_bucket_of(old(self).files@, path.unwrap()@, old(self).files@.len() as int) >= 0
                ==> {
                let b = spec_bucket_of(old(self).files@, path.unwrap()@, old(self).files@.len() as int);
                &&& final(self).files@.len() == old(self).files@.len()
                &&& final(self).files@[b].0@ == path.unwrap()@
                &&& final(self).files@[b].1@ == old(self).files@[b].1@.push(diagnostic)
                &&& forall|i: int|
                    0 <= i < old(self).files@.len() && i != b ==> #[trigger] final(self).files@[i] == old(
                        self,
                    ).files@[i]
            },
            path is Some && spec_bucket_of(old(self).files@, path.unwrap()@, old(self).files@.len() as int) < 0
                ==> {
                &&& final(self).files@.len() == old(self).files@.len() + 1
                &&& final(self).files@.subrange(0, old(self).files@.len() as int) == old(self).files@
                &&& final(self).files@.last().0@ == path.unwrap()@
                &&& final(self).files@.last().1@ == seq![diagnostic]
            },
    {
        match path {
            None => {
                self.non_file.push(diagnostic);
            },
            Some(p) => match self.find_bucket(p) {
                Some(i) => {
                    let ghost before = self.files@;
                    proof { lemma_bucket_bounds(before, p@, before.len() as int); }
                    let (name, mut bucket) = self.files.remove(i);
                    bucket.push(diagnostic);
                    self.files.insert(i, (name, bucket));
                    proof {
                        assert(self.files@.len() == before.len());
                        assert(self.files@[i as int].0@ == p@);
                        assert forall|k: int| 0 <= k < before.len() && k != i implies #[trigger] self.files@[k]
                            == before[k] by {
                            if k < i {
                                assert(self.files@[k] == before.remove(i as int)[k]);
                            } else {
                                assert(self.files@[k] == before.remove(i as int)[k - 1]);
                            }
                        }
                    }
                },
                None => {
                    proof { lemma_bucket_bounds(self.files@, p@, self.files@.len() as int); }
                    let ghost before = self.files@;
                    let mut bucket: Vec<Diagnostic> = Vec::new();
                    bucket.push(diagnostic);
                    let name = copy_bytes_slice(p);
                    self.files.push((name, bucket));
                    proof {
                        assert(bucket@ =~= seq![diagnostic]);
                        if old(self).wf() {
                            assert forall|i: int, j: int| 0 <= i < j < self.files@.len() implies self.files@[i].0@
                                != self.files@[j].0@ by {
                                assert(self.files@[i] == before[i]);
                                if j < before.len() {
                                    assert(self.files@[j] == before[j]);
                                } else {
                                    assert(self.files@[j].0@ == p@);
                                }
                            }
                        }
                    }
                },
            },
        }
    }
}

fn copy_bytes_slice(p: &[u8]) -> (r: Vec<u8>)
    ensures
        r@ == p@,
{
    let mut out: Vec<u8> = Vec::new();
    let mut i: usize = 0;
    while i < p.len()
        invariant
            i <= p@.len(),
            out@ == p@.subrange(0, i as int),
        decreases p@.len() - i,
    {
        out.push(p[i]);
        proof { assert(p@.subrange(0, i + 1) == p@.subrange(0, i as int).push(p@[i as int])); }
        i = i + 1;
    }
    proof { assert(p@.subrange(0, i as int) == p@); }
    out
}

} // verus!

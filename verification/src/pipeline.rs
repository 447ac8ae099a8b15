//! The generation pipeline: an ordered chain of strategies that turns a
//! source file into a preview, short-circuiting on the first success.
//!
//! The chain: a cache hit is returned as it stands; a container file has
//! an embedded image entry extracted; anything else goes to the external
//! renderer, behind a temporary alias when the file's type must first be
//! sniffed from its leading bytes. The host performs each read, listing,
//! extraction and render, and reports the outcome back; `GenJob` decides
//! what happens next, and every decision is pinned by its contract.

use crate::archive::spec_listing_names;
use crate::archive::spec_select_entry;
use crate::archive::select_from_listing;
use crate::bytesutil::append_bytes;
use crate::bytesutil::lower_bytes;
use crate::bytesutil::spec_ends_with;
use crate::bytesutil::spec_lower;
use crate::bytesutil::spec_starts_with;
use crate::bytesutil::ends_with;
use crate::bytesutil::starts_with;
use crate::encode::b64_fits;
use crate::encode::convert_to_webp;
use crate::encode::data_uri;
use crate::encode::spec_b64_fits;
use crate::encode::spec_data_uri;
use crate::encode::webp_conversion;
use crate::error::GenError;
use crate::fingerprint::fingerprint;
use crate::fingerprint::spec_fingerprint;
use crate::scan::extension_of;
use crate::scan::file_name_of;
use crate::scan::spec_extension;
use crate::scan::spec_file_name;
use vstd::prelude::*;
use vstd::slice::slice_to_vec;

verus! {

/// What magic bytes at the head of an extensionless file reveal.
#[derive(Clone, Copy, Debug, PartialEq, Eq, Structural)]
pub enum SniffedKind {
    /// A layered raster document.
    Psd,
    /// A portable document.
    Pdf,
    /// A zip-like archive.
    Zip,
    /// A RIFF container, taken here for a vector drawing.
    Riff,
}

/// The magic prefix of a layered raster document.
pub open spec fn spec_magic_psd() -> Seq<u8> {
    (['8' as u8, 'B' as u8, 'P' as u8, 'S' as u8])@
}

/// The magic prefix of a portable document.
pub open spec fn spec_magic_pdf() -> Seq<u8> {
    (['%' as u8, 'P' as u8, 'D' as u8, 'F' as u8])@
}

/// The magic prefix of a zip-like archive.
pub open spec fn spec_magic_zip() -> Seq<u8> {
    (['P' as u8, 'K' as u8, 3u8, 4u8])@
}

/// The magic prefix of a RIFF container.
pub open spec fn spec_magic_riff() -> Seq<u8> {
    (['R' as u8, 'I' as u8, 'F' as u8, 'F' as u8])@
}

/// What the leading bytes of a file say about its kind, first match
/// taken.
pub open spec fn spec_sniff(head: Seq<u8>) -> Option<SniffedKind> {
    if spec_starts_with(head, spec_magic_psd()) {
        Some(SniffedKind::Psd)
    } else if spec_starts_with(head, spec_magic_pdf()) {
        Some(SniffedKind::Pdf)
    } else if spec_starts_with(head, spec_magic_zip()) {
        Some(SniffedKind::Zip)
    } else if spec_starts_with(head, spec_magic_riff()) {
        Some(SniffedKind::Riff)
    } else {
        None
    }
}

/// Sniff the kind of a file from its leading bytes.
pub fn sniff(head: &[u8]) -> (r: Option<SniffedKind>)
    ensures
        r == spec_sniff(head@),
{
    let psd = ['8' as u8, 'B' as u8, 'P' as u8, 'S' as u8];
    let pdf = ['%' as u8, 'P' as u8, 'D' as u8, 'F' as u8];
    let zip = ['P' as u8, 'K' as u8, 3u8, 4u8];
    let riff = ['R' as u8, 'I' as u8, 'F' as u8, 'F' as u8];
    if starts_with(head, psd.as_slice()) {
        Some(SniffedKind::Psd)
    } else if starts_with(head, pdf.as_slice()) {
        Some(SniffedKind::Pdf)
    } else if starts_with(head, zip.as_slice()) {
        Some(SniffedKind::Zip)
    } else if starts_with(head, riff.as_slice()) {
        Some(SniffedKind::Riff)
    } else {
        None
    }
}

/// The extension a sniffed kind is given for the renderer's benefit.
pub open spec fn spec_kind_ext(k: SniffedKind) -> Seq<u8> {
    match k {
        SniffedKind::Psd => (['p' as u8, 's' as u8, 'd' as u8])@,
        SniffedKind::Pdf => (['p' as u8, 'd' as u8, 'f' as u8])@,
        SniffedKind::Zip => (['z' as u8, 'i' as u8, 'p' as u8])@,
        SniffedKind::Riff => (['c' as u8, 'd' as u8, 'r' as u8])@,
    }
}

/// The extension bytes of a sniffed kind.
pub fn kind_ext(k: SniffedKind) -> (r: Vec<u8>)
    ensures
        r@ == spec_kind_ext(k),
{
    let lit: [u8; 3] = match k {
        SniffedKind::Psd => ['p' as u8, 's' as u8, 'd' as u8],
        SniffedKind::Pdf => ['p' as u8, 'd' as u8, 'f' as u8],
        SniffedKind::Zip => ['z' as u8, 'i' as u8, 'p' as u8],
        SniffedKind::Riff => ['c' as u8, 'd' as u8, 'r' as u8],
    };
    slice_to_vec(lit.as_slice())
}

/// The path alone makes the container strategy applicable: it names a
/// vector drawing. An extensionless file reaches the same strategy when
/// its leading bytes open like a zip or RIFF archive, decided when the
/// head has been read.
pub open spec fn spec_names_container(path: Seq<u8>) -> bool {
    spec_ends_with(spec_lower(path), (['.' as u8, 'c' as u8, 'd' as u8, 'r' as u8])@)
}

/// Whether the path alone names a container.
pub fn names_container(path: &[u8]) -> (r: bool)
    ensures
        r == spec_names_container(path@),
{
    let low = lower_bytes(path);
    let suffix = ['.' as u8, 'c' as u8, 'd' as u8, 'r' as u8];
    ends_with(low.as_slice(), suffix.as_slice())
}

/// The alias under which an extensionless file is shown to the
/// renderer: its own name with the sniffed extension appended; absent
/// when the file has an extension or its kind cannot be sniffed.
pub open spec fn spec_alias_name(path: Seq<u8>, head: Option<Seq<u8>>) -> Option<Seq<u8>> {
    if spec_extension(path) is None {
        match head {
            Some(h) => match spec_sniff(h) {
                Some(k) => Some(
                    spec_file_name(path) + seq!['.' as u8] + spec_kind_ext(k),
                ),
                None => None,
            },
            None => None,
        }
    } else {
        None
    }
}

/// The file name the renderer is pointed at: the alias when one is
/// called for, else the source's own name.
pub open spec fn spec_target_name(path: Seq<u8>, head: Option<Seq<u8>>) -> Seq<u8> {
    match spec_alias_name(path, head) {
        Some(a) => a,
        None => spec_file_name(path),
    }
}

/// The name under which the renderer leaves its output: the target's
/// name with a `.png` suffix.
pub open spec fn spec_thumb_name(target: Seq<u8>) -> Seq<u8> {
    target + (['.' as u8, 'p' as u8, 'n' as u8, 'g' as u8])@
}

/// The renderer's output name for a target.
pub fn thumb_name(target: &[u8]) -> (r: Vec<u8>)
    ensures
        r@ == spec_thumb_name(target@),
{
    let mut out = slice_to_vec(target);
    let suffix = ['.' as u8, 'p' as u8, 'n' as u8, 'g' as u8];
    append_bytes(&mut out, suffix.as_slice());
    proof {
        assert(out@ =~= spec_thumb_name(target@));
    }
    out
}

/// Where the pipeline stands between two host actions.
pub enum GenPhase {
    /// Waiting for the cache lookup.
    AwaitCache,
    /// Waiting for the file's leading bytes.
    AwaitHead,
    /// Waiting for the archive listing; carries the leading bytes when
    /// they were read on the way here.
    AwaitListing { head: Option<Vec<u8>> },
    /// Waiting for an entry's extracted bytes.
    AwaitEntry { head: Option<Vec<u8>> },
    /// Waiting for the renderer to finish against the named target.
    AwaitRender { target_name: Vec<u8> },
    /// Waiting for the renderer's output file.
    AwaitThumb { target_name: Vec<u8> },
    /// Finished, one way or the other.
    Done,
}

/// What the host must do next.
pub enum GenCmd {
    /// Look the fingerprint up in the cache and report its bytes, or
    /// that there are none.
    ReadCache { fingerprint: Vec<u8> },
    /// Read the file's leading bytes.
    ReadHead,
    /// List the archive's entries and report the listing output of a
    /// successful run, or that there was none.
    ListArchive,
    /// Extract the named entry and report its bytes, empty counting as
    /// none.
    ExtractEntry { name: Vec<u8> },
    /// Render the source; when an alias name is given, render through a
    /// link of that name pointing at the source, and remove the link
    /// afterwards whatever happens.
    Render { alias_name: Option<Vec<u8>>, target_name: Vec<u8> },
    /// Read and then remove the renderer's output file of this name.
    ReadThumb { file_name: Vec<u8> },
    /// Best-effort: persist the finished preview under the fingerprint,
    /// then hand the result over. A failure to persist is swallowed.
    Store { webp: Vec<u8>, result: String },
    /// Hand the result over; nothing is persisted.
    Finish { result: Result<String, GenError> },
}

/// One preview generation in flight.
pub struct GenJob {
    /// The source file's path.
    pub path: Vec<u8>,
    /// Its cache key.
    pub fingerprint: Vec<u8>,
    /// The modification time the key was derived from.
    pub mtime: Ghost<Option<u64>>,
    /// Where the pipeline stands.
    pub phase: GenPhase,
}

impl GenJob {
    /// The job's key is the fingerprint of its path and modification
    /// time.
    pub open spec fn wf(self) -> bool {
        self.fingerprint@ == spec_fingerprint(self.path@, self.mtime@)
    }

    /// Open a generation job. The host reports whether the source
    /// exists and its modification time; a missing source fails at
    /// once, anything else starts with the cache lookup.
    pub fn new(path: Vec<u8>, exists: bool, mtime: Option<u64>) -> (r: (GenJob, GenCmd))
        ensures
            r.0.wf(),
            r.0.path@ == path@,
            r.0.mtime@ == mtime,
            r.0.fingerprint@ == spec_fingerprint(path@, mtime),
            !exists ==> (r.0.phase is Done && (r.1 matches GenCmd::Finish { result } && (
            result matches Err(e) && e is NotFound))),
            exists ==> (r.0.phase is AwaitCache && (r.1 matches GenCmd::ReadCache { fingerprint }
                && fingerprint@ == spec_fingerprint(path@, mtime))),
    {
        let fp = fingerprint(path.as_slice(), mtime);
        if !exists {
            let job = GenJob { path, fingerprint: fp, mtime: Ghost(mtime), phase: GenPhase::Done };
            (job, GenCmd::Finish { result: Err(GenError::NotFound) })
        } else {
            let key = slice_to_vec(fp.as_slice());
            let job = GenJob {
                path,
                fingerprint: fp,
                mtime: Ghost(mtime),
                phase: GenPhase::AwaitCache,
            };
            (job, GenCmd::ReadCache { fingerprint: key })
        }
    }

    /// Move to the render stage: plan the alias from the sniffed head
    /// when the file has no extension, and ask the host to render.
    fn to_render(&mut self, head: Option<Vec<u8>>) -> (r: GenCmd)
        requires
            old(self).wf(),
        ensures
            final(self).wf(),
            final(self).path == old(self).path,
            final(self).fingerprint == old(self).fingerprint,
            final(self).mtime == old(self).mtime,
            spec_render_step(old(self).path@, opt_bytes(head), final(self).phase, r),
    {
        let has_ext = extension_of(self.path.as_slice()).is_some();
        let alias: Option<Vec<u8>> = if !has_ext {
            match &head {
                Some(h) => match sniff(h.as_slice()) {
                    Some(k) => {
                        let mut a = file_name_of(self.path.as_slice());
                        a.push('.' as u8);
                        let ext = kind_ext(k);
                        append_bytes(&mut a, ext.as_slice());
                        proof {
                            assert(a@ =~= spec_file_name(self.path@) + seq!['.' as u8]
                                + spec_kind_ext(k));
                        }
                        Some(a)
                    }
                    None => None,
                },
                None => None,
            }
        } else {
            None
        };
        match alias {
            Some(a) => {
                let target = slice_to_vec(a.as_slice());
                self.phase = GenPhase::AwaitRender { target_name: target };
                let target2 = slice_to_vec(a.as_slice());
                GenCmd::Render { alias_name: Some(a), target_name: target2 }
            }
            None => {
                let target = file_name_of(self.path.as_slice());
                let target2 = slice_to_vec(target.as_slice());
                self.phase = GenPhase::AwaitRender { target_name: target };
                GenCmd::Render { alias_name: None, target_name: target2 }
            }
        }
    }

    /// Close the job with obtained bytes: re-encode them canonically;
    /// persist and hand over on success, report the failure otherwise.
    fn finish_encode(&mut self, data: &Vec<u8>) -> (r: GenCmd)
        requires
            old(self).wf(),
        ensures
            final(self).wf(),
            final(self).path == old(self).path,
            final(self).fingerprint == old(self).fingerprint,
            final(self).mtime == old(self).mtime,
            final(self).phase is Done,
            spec_encode_outcome(data@, r),
    {
        self.phase = GenPhase::Done;
        match convert_to_webp(data.as_slice()) {
            Ok(webp) => {
                if b64_fits(webp.as_slice()) {
                    let uri = data_uri(webp.as_slice());
                    GenCmd::Store { webp, result: uri }
                } else {
                    GenCmd::Finish {
                        result: Err(
                            GenError::Encode(String::from_str("preview too large to encode")),
                        ),
                    }
                }
            }
            Err(e) => GenCmd::Finish { result: Err(e) },
        }
    }

    /// The cache lookup came back. A hit is handed over as it stands;
    /// on a miss the container strategy is tried when the path names a
    /// container, the head is read when the file has no extension, and
    /// everything else goes straight to the renderer.
    pub fn on_cache(&mut self, data: Option<Vec<u8>>) -> (r: GenCmd)
        requires
            old(self).wf(),
            old(self).phase is AwaitCache,
        ensures
            final(self).wf(),
            final(self).path == old(self).path,
            final(self).fingerprint == old(self).fingerprint,
            final(self).mtime == old(self).mtime,
            match data {
                Some(d) => final(self).phase is Done && (if spec_b64_fits(d@) {
                    r matches GenCmd::Finish { result } && result matches Ok(u) && u@
                        == spec_data_uri(d@)
                } else {
                    r matches GenCmd::Finish { result } && result matches Err(e) && e is Encode
                }),
                None => {
                    if spec_names_container(old(self).path@) {
                        final(self).phase matches GenPhase::AwaitListing { head }
                            && head is None && r is ListArchive
                    } else if spec_extension(old(self).path@) is None {
                        final(self).phase is AwaitHead && r is ReadHead
                    } else {
                        spec_render_step(old(self).path@, None, final(self).phase, r)
                    }
                },
            },
    {
        match data {
            Some(d) => {
                self.phase = GenPhase::Done;
                if b64_fits(d.as_slice()) {
                    let uri = data_uri(d.as_slice());
                    GenCmd::Finish { result: Ok(uri) }
                } else {
                    GenCmd::Finish {
                        result: Err(
                            GenError::Encode(String::from_str("cached preview too large")),
                        ),
                    }
                }
            }
            None => {
                if names_container(self.path.as_slice()) {
                    self.phase = GenPhase::AwaitListing { head: None };
                    GenCmd::ListArchive
                } else if extension_of(self.path.as_slice()).is_none() {
                    self.phase = GenPhase::AwaitHead;
                    GenCmd::ReadHead
                } else {
                    self.to_render(None)
                }
            }
        }
    }

    /// The leading bytes came back (or could not be read). An archive
    /// opening is handed to the container strategy; anything else goes
    /// to the renderer, through an alias when the kind was sniffed.
    pub fn on_head(&mut self, head: Option<Vec<u8>>) -> (r: GenCmd)
        requires
            old(self).wf(),
            old(self).phase is AwaitHead,
        ensures
            final(self).wf(),
            final(self).path == old(self).path,
            final(self).fingerprint == old(self).fingerprint,
            final(self).mtime == old(self).mtime,
            if head matches Some(h) && (spec_starts_with(h@, spec_magic_zip())
                || spec_starts_with(h@, spec_magic_riff())) {
                final(self).phase matches GenPhase::AwaitListing { head: ph }
                    && opt_bytes(ph) == opt_bytes_ref(&head) && r is ListArchive
            } else {
                spec_render_step(old(self).path@, opt_bytes_ref(&head), final(self).phase, r)
            },
    {
        let archive_like = match &head {
            Some(h) => {
                let zip = ['P' as u8, 'K' as u8, 3u8, 4u8];
                let riff = ['R' as u8, 'I' as u8, 'F' as u8, 'F' as u8];
                starts_with(h.as_slice(), zip.as_slice()) || starts_with(
                    h.as_slice(),
                    riff.as_slice(),
                )
            }
            None => false,
        };
        if archive_like {
            let kept: Option<Vec<u8>> = match &head {
                Some(h) => Some(slice_to_vec(h.as_slice())),
                None => None,
            };
            self.phase = GenPhase::AwaitListing { head: kept };
            GenCmd::ListArchive
        } else {
            self.to_render(head)
        }
    }
    /// The archive listing came back (or the listing tool failed). A
    /// selected entry is extracted; with nothing to select, the job
    /// falls through to the renderer.
    pub fn on_listing(&mut self, stdout: Option<Vec<u8>>) -> (r: GenCmd)
        requires
            old(self).wf(),
            old(self).phase is AwaitListing,
        ensures
            final(self).wf(),
            final(self).path == old(self).path,
            final(self).fingerprint == old(self).fingerprint,
            final(self).mtime == old(self).mtime,
            ({
                let kept = phase_head(old(self).phase);
                match stdout {
                    Some(out) => match spec_select_entry(spec_listing_names(out@)) {
                        Some(name) => (final(self).phase matches GenPhase::AwaitEntry { head: ph }
                            && opt_bytes(ph) == kept) && (r matches GenCmd::ExtractEntry {
                            name: n,
                        } && n@ == name),
                        None => spec_render_step(old(self).path@, kept, final(self).phase, r),
                    },
                    None => spec_render_step(old(self).path@, kept, final(self).phase, r),
                }
            }),
    {
        let mut taken = GenPhase::Done;
        core::mem::swap(&mut taken, &mut self.phase);
        let head = match taken {
            GenPhase::AwaitListing { head } => head,
            _ => None,
        };
        match stdout {
            Some(out) => {
                match select_from_listing(out.as_slice()) {
                    Some(name) => {
                        self.phase = GenPhase::AwaitEntry { head };
                        GenCmd::ExtractEntry { name }
                    }
                    None => self.to_render(head),
                }
            }
            None => self.to_render(head),
        }
    }

    /// The extracted entry came back. Usable bytes are re-encoded and
    /// finish the job; an empty or failed extraction falls through to
    /// the renderer.
    pub fn on_entry(&mut self, data: Option<Vec<u8>>) -> (r: GenCmd)
        requires
            old(self).wf(),
            old(self).phase is AwaitEntry,
        ensures
            final(self).wf(),
            final(self).path == old(self).path,
            final(self).fingerprint == old(self).fingerprint,
            final(self).mtime == old(self).mtime,
            ({
                let kept = phase_head(old(self).phase);
                match data {
                    Some(d) => if d@.len() > 0 {
                        final(self).phase is Done && spec_encode_outcome(d@, r)
                    } else {
                        spec_render_step(old(self).path@, kept, final(self).phase, r)
                    },
                    None => spec_render_step(old(self).path@, kept, final(self).phase, r),
                }
            }),
    {
        let mut taken = GenPhase::Done;
        core::mem::swap(&mut taken, &mut self.phase);
        let head = match taken {
            GenPhase::AwaitEntry { head } => head,
            _ => None,
        };
        match data {
            Some(d) => {
                if d.len() > 0 {
                    self.finish_encode(&d)
                } else {
                    self.to_render(head)
                }
            }
            None => self.to_render(head),
        }
    }

    /// The renderer finished. On success its output file is read; on
    /// failure the job is over, and no further strategy remains.
    pub fn on_render(&mut self, ok: bool) -> (r: GenCmd)
        requires
            old(self).wf(),
            old(self).phase is AwaitRender,
        ensures
            final(self).wf(),
            final(self).path == old(self).path,
            final(self).fingerprint == old(self).fingerprint,
            final(self).mtime == old(self).mtime,
            ({
                let target = phase_target(old(self).phase);
                if ok {
                    (final(self).phase matches GenPhase::AwaitThumb { target_name: tn } && tn@
                        == target) && (r matches GenCmd::ReadThumb { file_name } && file_name@
                        == spec_thumb_name(target))
                } else {
                    final(self).phase is Done && (r matches GenCmd::Finish { result } && (
                    result matches Err(e) && e is ExternalTool))
                }
            }),
    {
        let mut taken = GenPhase::Done;
        core::mem::swap(&mut taken, &mut self.phase);
        let target = match taken {
            GenPhase::AwaitRender { target_name } => target_name,
            _ => Vec::new(),
        };
        if ok {
            let file_name = thumb_name(target.as_slice());
            self.phase = GenPhase::AwaitThumb { target_name: target };
            GenCmd::ReadThumb { file_name }
        } else {
            GenCmd::Finish {
                result: Err(
                    GenError::ExternalTool(String::from_str("the renderer reported failure")),
                ),
            }
        }
    }

    /// The renderer's output came back, or was not where it was
    /// expected. Output bytes are re-encoded and finish the job; a
    /// missing output fails it.
    pub fn on_thumb(&mut self, data: Option<Vec<u8>>) -> (r: GenCmd)
        requires
            old(self).wf(),
            old(self).phase is AwaitThumb,
        ensures
            final(self).wf(),
            final(self).path == old(self).path,
            final(self).fingerprint == old(self).fingerprint,
            final(self).mtime == old(self).mtime,
            final(self).phase is Done,
            match data {
                Some(d) => spec_encode_outcome(d@, r),
                None => r matches GenCmd::Finish { result } && (result matches Err(e)
                    && e is ExternalTool),
            },
    {
        match data {
            Some(d) => self.finish_encode(&d),
            None => {
                self.phase = GenPhase::Done;
                GenCmd::Finish {
                    result: Err(
                        GenError::ExternalTool(
                            String::from_str("no output at the expected path"),
                        ),
                    ),
                }
            }
        }
    }
}

/// Falling through to the renderer: the job waits on the planned
/// target, and the command asks for exactly that render.
pub open spec fn spec_render_step(path: Seq<u8>, head: Option<Seq<u8>>, phase: GenPhase, r: GenCmd) -> bool {
    (phase matches GenPhase::AwaitRender { target_name: tn } && tn@ == spec_target_name(path, head))
        && (r matches GenCmd::Render { alias_name: an, target_name: tn2 } && tn2@
        == spec_target_name(path, head) && (match spec_alias_name(path, head) {
        Some(a) => (an matches Some(v) && v@ == a),
        None => an is None,
    }))
}

/// The head bytes a waiting phase carries.
pub open spec fn phase_head(p: GenPhase) -> Option<Seq<u8>> {
    match p {
        GenPhase::AwaitListing { head } => opt_bytes(head),
        GenPhase::AwaitEntry { head } => opt_bytes(head),
        _ => None,
    }
}

/// The render target a waiting phase carries.
pub open spec fn phase_target(p: GenPhase) -> Seq<u8> {
    match p {
        GenPhase::AwaitRender { target_name } => target_name@,
        GenPhase::AwaitThumb { target_name } => target_name@,
        _ => Seq::empty(),
    }
}

/// What closing the job on obtained bytes yields: the re-encoded
/// preview stored and handed over when the bytes convert and fit, the
/// exact failure otherwise.
pub open spec fn spec_encode_outcome(data: Seq<u8>, r: GenCmd) -> bool {
    match webp_conversion(data) {
        Some(w) => {
            if spec_b64_fits(w) {
                r matches GenCmd::Store { webp, result } && webp@ == w && result@
                    == spec_data_uri(w)
            } else {
                r matches GenCmd::Finish { result } && (result matches Err(e) && e is Encode)
            }
        },
        None => r matches GenCmd::Finish { result } && (result matches Err(e) && (e is Decode
            || e is Encode)),
    }
}

/// Idempotence of repeated generation. A run that ends by storing a
/// preview hands over exactly the data URI of the stored bytes, and
/// those bytes always fit the encoder. An unchanged file fingerprints
/// to the same key (`crate::fingerprint::lemma_fingerprint_pure`), so a
/// later run finds the stored bytes, and `on_cache` on a hit finishes
/// at once — issuing no listing, extraction or render — with the data
/// URI of what it found: byte for byte the first run's payload.
pub proof fn lemma_repeat_generation_identical(data: Seq<u8>, r1: GenCmd)
    requires
        spec_encode_outcome(data, r1),
        r1 is Store,
    ensures
        r1 matches GenCmd::Store { webp, result } ==> (spec_b64_fits(webp@) && result@
            == spec_data_uri(webp@)),
{
    match webp_conversion(data) {
        Some(w) => {
            if !spec_b64_fits(w) {
                assert(r1 is Finish);
            }
        }
        None => {
            assert(r1 is Finish);
        }
    }
}

/// The byte view of an optional byte vector.
pub open spec fn opt_bytes(o: Option<Vec<u8>>) -> Option<Seq<u8>> {
    match o {
        Some(v) => Some(v@),
        None => None,
    }
}

/// The byte view of a borrowed optional byte vector.
pub open spec fn opt_bytes_ref(o: &Option<Vec<u8>>) -> Option<Seq<u8>> {
    opt_bytes(*o)
}

} // verus!

use vstd::prelude::*;
use vstd::string::StrSliceExecFns;
use vstd::string::StringExecFns;

use crate::device::TargetKind;

verus! {

/// Why a transfer may not start. Reported synchronously, before any
/// background work begins.
#[derive(Clone, Copy, Debug, PartialEq, Eq, Structural)]
pub enum ValidationError {
    EmptySource,
    EmptyTarget,
    SourceUnreadable,
}

/// A validated transfer: the image to read and the identifier of the
/// device to write. It holds copies, so later edits to the picked path or
/// device do not reach a transfer in flight.
#[derive(Clone, Debug)]
pub struct TransferRequest {
    source_path: String,
    target: String,
}

impl TransferRequest {
    pub closed spec fn source_view(&self) -> Seq<char> {
        self.source_path@
    }

    pub closed spec fn target_view(&self) -> Seq<char> {
        self.target@
    }

    /// Both fields are set.
    pub open spec fn wf(&self) -> bool {
        self.source_view().len() > 0 && self.target_view().len() > 0
    }

    pub fn source_path(&self) -> (r: &str)
        ensures
            r@ == self.source_view(),
    {
        self.source_path.as_str()
    }

    pub fn target(&self) -> (r: &str)
        ensures
            r@ == self.target_view(),
    {
        self.target.as_str()
    }

    /// Where the bytes go: the device node itself, or a file named after
    /// the image inside the mounted directory.
    pub fn destination_path(&self, kind: TargetKind) -> (r: String)
        ensures
            r@ == destination(self.source_view(), self.target_view(), kind),
    {
        match kind {
            TargetKind::RawDevice => self.target.clone(),
            TargetKind::MountPoint => {
                let name = base_name(self.source_path.as_str());
                let dir = self.target.as_str();
                let n = dir.unicode_len();
                let mut out = String::from_str(dir);
                if n == 0 || dir.get_char(n - 1) != '/' {
                    out.append("/");
                }
                out.append(name);
                proof {
                    reveal_strlit("/");
                }
                assert(out@ =~= destination(self.source_view(), self.target_view(), kind));
                out
            },
        }
    }
}

/// Where the last path component starts: just past the last `/`, or at the
/// start when there is none.
pub open spec fn name_start(p: Seq<char>) -> int
    decreases p.len(),
{
    if p.len() == 0 {
        0
    } else if p.last() == '/' {
        p.len() as int
    } else {
        name_start(p.drop_last())
    }
}

/// The last component of a path: what follows its last `/`.
pub open spec fn file_name(p: Seq<char>) -> Seq<char> {
    p.subrange(name_start(p), p.len() as int)
}

/// A directory joined with a name, with one `/` between them.
pub open spec fn join(dir: Seq<char>, name: Seq<char>) -> Seq<char> {
    if dir.len() > 0 && dir.last() == '/' {
        dir + name
    } else {
        dir + seq!['/'] + name
    }
}

pub open spec fn destination(source: Seq<char>, target: Seq<char>, kind: TargetKind) -> Seq<char> {
    match kind {
        TargetKind::RawDevice => target,
        TargetKind::MountPoint => join(target, file_name(source)),
    }
}

/// The last component of `path`.
pub fn base_name(path: &str) -> (r: &str)
    ensures
        r@ == file_name(path@),
{
    let n = path.unicode_len();
    let mut i: usize = n;
    assert(path@.subrange(0, n as int) =~= path@);
    while i > 0 && path.get_char(i - 1) != '/'
        invariant
            n == path@.len(),
            i <= n,
            name_start(path@) == name_start(path@.subrange(0, i as int)),
        decreases i,
    {
        assert(path@.subrange(0, i as int).drop_last() =~= path@.subrange(0, i - 1));
        i = i - 1;
    }
    proof {
        if i > 0 {
            assert(path@.subrange(0, i as int).last() == path@[i - 1]);
        } else {
            assert(path@.subrange(0, 0) =~= Seq::<char>::empty());
        }
    }
    path.substring_char(i, n)
}

/// The error a requested transfer is refused with, if any.
pub open spec fn validation_error(source: Seq<char>, target: Seq<char>, source_readable: bool) -> Option<
    ValidationError,
> {
    if source.len() == 0 {
        Some(ValidationError::EmptySource)
    } else if target.len() == 0 {
        Some(ValidationError::EmptyTarget)
    } else if !source_readable {
        Some(ValidationError::SourceUnreadable)
    } else {
        None
    }
}

/// Checks a requested transfer. `source_readable` is whether the source
/// path resolved to a readable file when it was looked at. The source is
/// checked first, then the target, then readability.
pub fn validate(source_path: &str, target: &str, source_readable: bool) -> (r: Result<
    TransferRequest,
    ValidationError,
>)
    ensures
        (r == Err::<TransferRequest, ValidationError>(ValidationError::EmptySource)) <==> source_path@.len() == 0,
        (r == Err::<TransferRequest, ValidationError>(ValidationError::EmptyTarget)) <==> (source_path@.len() > 0 && target@.len() == 0),
        (r == Err::<TransferRequest, ValidationError>(ValidationError::SourceUnreadable)) <==> (source_path@.len() > 0
            && target@.len() > 0 && !source_readable),
        r is Ok <==> (source_path@.len() > 0 && target@.len() > 0 && source_readable),
        match r {
            Ok(_) => validation_error(source_path@, target@, source_readable) is None,
            Err(e) => validation_error(source_path@, target@, source_readable) == Some(e),
        },
        r matches Ok(req) ==> req.source_view() == source_path@ && req.target_view() == target@
            && req.wf(),
{
    if source_path.is_empty() {
        Err(ValidationError::EmptySource)
    } else if target.is_empty() {
        Err(ValidationError::EmptyTarget)
    } else if !source_readable {
        Err(ValidationError::SourceUnreadable)
    } else {
        Ok(TransferRequest { source_path: source_path.to_owned(), target: target.to_owned() })
    }
}

} // verus!

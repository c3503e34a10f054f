//! Boot entries: one per kernel, carrying its cmdline snippets and exposing
//! the naming operations a bootloader writer needs.

use crate::file_utils::{basename, basename_of, join_component, join_path};
use crate::{AuxiliaryFile, AuxiliaryKind, Error, Kernel, Schema};
use vstd::prelude::*;

verus! {

/// A cmdline entry, found in the `{sysroot}/usr/lib/kernel/cmdline.d`
/// directory of the target.
pub struct CmdlineEntry {
    /// Name of the entry, i.e. `00-quiet.cmdline`.
    pub name: String,
    /// Text contents of this cmdline entry.
    pub snippet: String,
}

/// One file discovered in the cmdline drop-in directory, as the caller read
/// it: its literal filename, and its verbatim text, or `None` where the read
/// failed.
pub struct CmdlineSnippetFile {
    pub name: String,
    pub content: Option<String>,
}

/// The (name, snippet) texts of a sequence of cmdline entries.
pub open spec fn cmdline_views(s: Seq<CmdlineEntry>) -> Seq<(Seq<char>, Seq<char>)> {
    s.map_values(|e: CmdlineEntry| (e.name@, e.snippet@))
}

/// Every discovered file could be read.
pub open spec fn all_readable(files: Seq<CmdlineSnippetFile>) -> bool {
    forall|i: int| 0 <= i < files.len() ==> files[i].content is Some
}

/// The index of the first file whose read failed.
pub open spec fn first_unreadable(files: Seq<CmdlineSnippetFile>) -> int
    decreases files.len(),
{
    if files.len() == 0 {
        0
    } else if files[0].content is None {
        0
    } else {
        1 + first_unreadable(files.drop_first())
    }
}

/// The (name, snippet) texts the discovered files turn into.
pub open spec fn entries_of(files: Seq<CmdlineSnippetFile>) -> Seq<(Seq<char>, Seq<char>)> {
    files.map_values(|f: CmdlineSnippetFile| (f.name@, f.content->0@))
}

proof fn lemma_first_unreadable_at(files: Seq<CmdlineSnippetFile>, i: int)
    requires
        0 <= i < files.len(),
        forall|j: int| 0 <= j < i ==> files[j].content is Some,
        files[i].content is None,
    ensures
        first_unreadable(files) == i,
    decreases i,
{
    if i > 0 {
        lemma_first_unreadable_at(files.drop_first(), i - 1);
    }
}

/// The identifier the schema gives an entry: the os-release name (legacy) or
/// id (blsforme), then `-`, then the kernel version.
pub open spec fn spec_id(schema: Schema, kernel: Kernel) -> Seq<char> {
    (match schema {
        Schema::Legacy { os_release } => os_release.name@,
        Schema::Blsforme { os_release } => os_release.id@,
    }) + "-"@ + kernel.version@
}

/// The install name of the kernel image: `kernel-{basename(image)}` under the
/// legacy schema (`None` when the image path has no file name), and always
/// `{version}/vmlinuz` under the blsforme schema.
pub open spec fn spec_installed_kernel_name(schema: Schema, kernel: Kernel) -> Option<Seq<char>> {
    match schema {
        Schema::Legacy { .. } => match basename_of(kernel.image@) {
            Some(f) => Some("kernel-"@ + f),
            None => None,
        },
        Schema::Blsforme { .. } => Some(kernel.version@ + "/vmlinuz"@),
    }
}

/// The install name of an auxiliary file. Only initrd assets have one:
/// `initrd-{basename(path)}` under the legacy schema, and
/// `{version}/{basename(path)}` under the blsforme schema, `None` when the
/// asset path has no file name. Every other kind has none under either
/// schema: an unsupported kind is skippable, not an error.
pub open spec fn spec_installed_asset_name(
    schema: Schema,
    kernel: Kernel,
    asset: AuxiliaryFile,
) -> Option<Seq<char>> {
    match schema {
        Schema::Legacy { .. } => match asset.kind {
            AuxiliaryKind::InitRD => match basename_of(asset.path@) {
                Some(f) => Some("initrd-"@ + f),
                None => None,
            },
            _ => None,
        },
        Schema::Blsforme { .. } => match basename_of(asset.path@) {
            Some(f) => match asset.kind {
                AuxiliaryKind::InitRD => Some(kernel.version@ + "/"@ + f),
                _ => None,
            },
            None => None,
        },
    }
}

/// The drop-in directory searched for cmdline snippets:
/// `{sysroot or configured root}/usr/lib/kernel/cmdline.d`.
pub open spec fn spec_cmdline_dir(sysroot: Option<String>, config_root: Seq<char>) -> Seq<char> {
    let base = match sysroot {
        Some(s) => s@,
        None => config_root,
    };
    join_path(join_path(join_path(join_path(base, "usr"@), "lib"@), "kernel"@), "cmdline.d"@)
}

/// An entry corresponds to a single kernel, and may have a supplemental
/// cmdline gathered from the target's drop-in directory.
pub struct Entry<'a> {
    pub kernel: &'a Kernel,
    pub sysroot: Option<String>,
    pub cmdline: Vec<CmdlineEntry>,
}

impl<'a> Entry<'a> {
    /// New entry for the given kernel, with no sysroot override and no
    /// cmdline snippets yet.
    pub fn new(kernel: &'a Kernel) -> (r: Self)
        ensures
            r.kernel == kernel,
            r.sysroot is None,
            r.cmdline@.len() == 0,
    {
        Self { kernel, cmdline: Vec::new(), sysroot: None }
    }

    /// The same entry, with the given system root; snippet loading then looks
    /// under it.
    pub fn with_sysroot(self, sysroot: String) -> (r: Self)
        ensures
            r.kernel == self.kernel,
            r.sysroot == Some(sysroot),
            r.cmdline@ == self.cmdline@,
    {
        Self { sysroot: Some(sysroot), ..self }
    }

    /// The directory this entry's cmdline snippets are read from, under its
    /// sysroot when one is set, else under the configured root.
    pub fn cmdline_dir(&self, config_root: &String) -> (r: String)
        ensures
            r@ == spec_cmdline_dir(self.sysroot, config_root@),
    {
        let base = match &self.sysroot {
            Some(s) => s.as_str(),
            None => config_root.as_str(),
        };
        let a = join_component(base, "usr");
        let b = join_component(a.as_str(), "lib");
        let c = join_component(b.as_str(), "kernel");
        join_component(c.as_str(), "cmdline.d")
    }

    /// Record the cmdline snippets the caller discovered for this entry.
    ///
    /// `listing` is what enumerating the drop-in directory gave: `None` when
    /// the directory does not exist — not an error, the entry just gains no
    /// snippets — else every file found there, each with its content or a
    /// mark that reading it failed.
    ///
    /// When every file was read, appends them all, in the order given, to
    /// this entry's cmdline. When any read failed the whole load fails — a
    /// partial cmdline is worse than none — naming the first unreadable file
    /// and leaving the entry unchanged.
    pub fn load_cmdline_snippets(&mut self, listing: &Option<Vec<CmdlineSnippetFile>>) -> (r:
        Result<(), Error>)
        ensures
            final(self).kernel == old(self).kernel,
            final(self).sysroot == old(self).sysroot,
            match *listing {
                None => r is Ok && final(self).cmdline@ == old(self).cmdline@,
                Some(files) => if all_readable(files@) {
                    &&& r is Ok
                    &&& cmdline_views(final(self).cmdline@) == cmdline_views(old(self).cmdline@)
                        + entries_of(files@)
                } else {
                    &&& final(self).cmdline@ == old(self).cmdline@
                    &&& r matches Err(Error::SnippetRead(n)) && n@ == files@[first_unreadable(
                        files@,
                    )].name@
                },
            },
    {
        let files = match listing {
            None => {
                return Ok(());
            },
            Some(fs) => fs,
        };
        let ghost fseq = files@;
        proof {
            assert(*listing matches Some(v) && v@ == fseq);
        }
        let mut gathered: Vec<CmdlineEntry> = Vec::new();
        let mut i: usize = 0;
        while i < files.len()
            invariant
                0 <= i <= fseq.len(),
                fseq == files@,
                *listing matches Some(v) && v@ == fseq,
                forall|j: int| 0 <= j < i ==> fseq[j].content is Some,
                cmdline_views(gathered@) == entries_of(fseq.take(i as int)),
            decreases fseq.len() - i,
        {
            let f = &files[i];
            match &f.content {
                Some(c) => {
                    let ghost old_gathered = gathered@;
                    gathered.push(CmdlineEntry { name: f.name.clone(), snippet: c.clone() });
                    proof {
                        assert(cmdline_views(old_gathered).len() == old_gathered.len());
                        assert(entries_of(fseq.take(i as int)).len() == i);
                        assert(old_gathered.len() == i);
                        assert(fseq.take(i + 1).drop_last() =~= fseq.take(i as int));
                        assert(entries_of(fseq.take(i + 1)).len() == i + 1);
                        assert(cmdline_views(gathered@) =~= entries_of(fseq.take(i + 1))) by {
                            assert forall|t: int| 0 <= t < i + 1 implies cmdline_views(gathered@)[t]
                                == entries_of(fseq.take(i + 1))[t] by {
                                if t < i {
                                    assert(cmdline_views(old_gathered)[t] == entries_of(
                                        fseq.take(i as int),
                                    )[t]);
                                    assert(gathered@[t] == old_gathered[t]);
                                    assert(fseq.take(i + 1)[t] == fseq.take(i as int)[t]);
                                } else {
                                    assert(gathered@[t] == gathered@.last());
                                    assert(fseq.take(i + 1)[t] == fseq[i as int]);
                                }
                            }
                        }
                    }
                },
                None => {
                    proof {
                        lemma_first_unreadable_at(fseq, i as int);
                    }
                    return Err(Error::SnippetRead(f.name.clone()));
                },
            }
            i = i + 1;
        }
        proof {
            assert(fseq.take(fseq.len() as int) =~= fseq);
        }
        let ghost old_cmdline = self.cmdline@;
        let mut j: usize = 0;
        while j < gathered.len()
            invariant
                0 <= j <= gathered@.len(),
                *listing matches Some(v) && v@ == fseq,
                all_readable(fseq),
                cmdline_views(gathered@) == entries_of(fseq),
                self.kernel == old(self).kernel,
                self.sysroot == old(self).sysroot,
                old_cmdline == old(self).cmdline@,
                cmdline_views(self.cmdline@) == cmdline_views(old_cmdline) + cmdline_views(
                    gathered@.take(j as int),
                ),
            decreases gathered@.len() - j,
        {
            let e = &gathered[j];
            let ghost old_cm = self.cmdline@;
            self.cmdline.push(CmdlineEntry { name: e.name.clone(), snippet: e.snippet.clone() });
            proof {
                assert(cmdline_views(self.cmdline@) =~= cmdline_views(old_cmdline) + cmdline_views(
                    gathered@.take(j + 1),
                )) by {
                    assert(cmdline_views(old_cm).len() == old_cm.len());
                    assert forall|t: int| 0 <= t < self.cmdline@.len() implies cmdline_views(
                        self.cmdline@,
                    )[t] == (cmdline_views(old_cmdline) + cmdline_views(gathered@.take(j + 1)))[t]
                        by {
                        if t < old_cm.len() {
                            assert(self.cmdline@[t] == old_cm[t]);
                            assert(cmdline_views(old_cm)[t] == (cmdline_views(old_cmdline)
                                + cmdline_views(gathered@.take(j as int)))[t]);
                            if t >= old_cmdline.len() {
                                assert(gathered@.take(j + 1)[t - old_cmdline.len()]
                                    == gathered@.take(j as int)[t - old_cmdline.len()]);
                            }
                        } else {
                            assert(self.cmdline@[t] == self.cmdline@.last());
                            assert(gathered@.take(j + 1)[j as int] == gathered@[j as int]);
                        }
                    }
                }
            }
            j = j + 1;
        }
        proof {
            assert(gathered@.take(gathered@.len() as int) =~= gathered@);
        }
        Ok(())
    }

    /// Return an entry ID, suitable for `.conf` generation, as
    /// [`spec_id`] states it.
    pub fn id(&self, schema: &Schema) -> (r: String)
        ensures
            r@ == spec_id(*schema, *self.kernel),
    {
        let mut base = match schema {
            Schema::Legacy { os_release } => os_release.name.clone(),
            Schema::Blsforme { os_release } => os_release.id.clone(),
        };
        base.append("-");
        base.append(self.kernel.version.as_str());
        base
    }

    /// Generate the installed name for the kernel image, used by
    /// bootloaders, as [`spec_installed_kernel_name`] states it. `None`
    /// means the kernel has no representable install name under this
    /// schema: skip it, nothing failed.
    pub fn installed_kernel_name(&self, schema: &Schema) -> (r: Option<String>)
        ensures
            match r {
                Some(s) => spec_installed_kernel_name(*schema, *self.kernel) == Some(s@),
                None => spec_installed_kernel_name(*schema, *self.kernel) is None,
            },
    {
        match schema {
            Schema::Legacy { .. } => match basename(self.kernel.image.as_str()) {
                Some(f) => {
                    let mut s = String::from_str("kernel-");
                    s.append(f.as_str());
                    Some(s)
                },
                None => None,
            },
            Schema::Blsforme { .. } => {
                let mut s = self.kernel.version.clone();
                s.append("/vmlinuz");
                Some(s)
            },
        }
    }

    /// Generate the installed name for an auxiliary file, used by
    /// bootloaders, as [`spec_installed_asset_name`] states it. `None`
    /// means the asset has no representable install name under this
    /// schema: skip it, nothing failed.
    pub fn installed_asset_name(&self, schema: &Schema, asset: &AuxiliaryFile) -> (r: Option<
        String,
    >)
        ensures
            match r {
                Some(s) => spec_installed_asset_name(*schema, *self.kernel, *asset) == Some(s@),
                None => spec_installed_asset_name(*schema, *self.kernel, *asset) is None,
            },
    {
        match schema {
            Schema::Legacy { .. } => match asset.kind {
                AuxiliaryKind::InitRD => match basename(asset.path.as_str()) {
                    Some(f) => {
                        let mut s = String::from_str("initrd-");
                        s.append(f.as_str());
                        Some(s)
                    },
                    None => None,
                },
                _ => None,
            },
            Schema::Blsforme { .. } => match basename(asset.path.as_str()) {
                Some(f) => match asset.kind {
                    AuxiliaryKind::InitRD => {
                        let mut s = self.kernel.version.clone();
                        s.append("/");
                        s.append(f.as_str());
                        Some(s)
                    },
                    _ => None,
                },
                None => None,
            },
        }
    }
}

} // verus!

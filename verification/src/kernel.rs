use crate::error::Error;
use vstd::prelude::*;

verus! {

/// What a kernel is known by: its source text and the name of its entry
/// point.
pub type KernelKey = (Seq<char>, Seq<char>);

/// A kernel that was built, with the source it was built from.
pub struct KernelEntry {
    pub source: String,
    pub entry: String,
    /// What the backend calls the built kernel.
    pub handle: usize,
}

impl KernelEntry {
    pub open spec fn key(&self) -> KernelKey {
        (self.source@, self.entry@)
    }
}

/// The kernels that `entries` files, a later entry before an earlier one
/// with the same key.
pub open spec fn filed(entries: Seq<KernelEntry>) -> Map<KernelKey, usize>
    decreases entries.len(),
{
    if entries.len() == 0 {
        Map::empty()
    } else {
        filed(entries.drop_last()).insert(entries.last().key(), entries.last().handle)
    }
}

/// The kernels after the outcome of a build was taken in: a kernel that is
/// filed already stays as it is, a new one is filed, a failed build leaves
/// no trace.
pub open spec fn recorded(
    kernels: Map<KernelKey, usize>,
    key: KernelKey,
    outcome: Result<usize, String>,
) -> Map<KernelKey, usize> {
    if kernels.contains_key(key) {
        kernels
    } else {
        match outcome {
            Ok(handle) => kernels.insert(key, handle),
            Err(_) => kernels,
        }
    }
}

/// A kernel that was built for one device.
#[derive(Debug, Clone, Copy, PartialEq, Eq, Structural)]
pub struct Kernel {
    /// Number of the device that the kernel was built for.
    pub device: usize,
    /// What the backend calls the built kernel.
    pub handle: usize,
}

/// Something that builds kernels: the compiler of a backend's driver.
pub trait Compile {
    /// Builds the kernel `entry` of `source` and says what the backend
    /// calls it, or gives the diagnostic text of the failed build.
    fn compile(&mut self, source: &str, entry: &str) -> Result<usize, String>;
}

/// Whether `outcome` is what a call of `compile` for the kernel `entry` of
/// `source` gave on the compiler `before`.
pub open spec fn built<C: Compile>(
    before: C,
    source: &str,
    entry: &str,
    outcome: Result<usize, String>,
) -> bool {
    exists|c: &mut C|
        *c == before && #[trigger] call_ensures(C::compile, (c, source, entry), outcome)
}

/// Whether `after` and `r` are what asking for the kernel `entry` of
/// `source` gives, with the kernels `kernels` and the compiler `compiler`:
/// a kernel that is filed is returned as it is; for any other the compiler
/// is asked once, for this source and this entry, and what it answers is
/// taken in.
pub open spec fn compiled<C: Compile>(
    kernels: Map<KernelKey, usize>,
    compiler: C,
    source: &str,
    entry: &str,
    after: Map<KernelKey, usize>,
    r: Result<usize, Error>,
) -> bool {
    if kernels.contains_key((source@, entry@)) {
        r == Ok::<usize, Error>(kernels[(source@, entry@)]) && after == kernels
    } else {
        exists|outcome: Result<usize, String>| #[trigger]
            built(compiler, source, entry, outcome) && after == recorded(
                kernels,
                (source@, entry@),
                outcome,
            ) && (match outcome {
                Ok(handle) => r == Ok::<usize, Error>(handle),
                Err(text) => r matches Err(Error::Compile(t)) && t@ == text@,
            })
    }
}

/// The kernels that were built for one device, by source text and entry
/// point.
pub struct KernelCache {
    kernels: Vec<KernelEntry>,
}

impl View for KernelCache {
    type V = Map<KernelKey, usize>;

    closed spec fn view(&self) -> Map<KernelKey, usize> {
        filed(self.kernels@)
    }
}

impl KernelCache {
    /// No two entries have the same key.
    #[verifier::type_invariant]
    spec fn distinct(&self) -> bool {
        forall|i: int, j: int|
            0 <= i < self.kernels@.len() && 0 <= j < self.kernels@.len() && i != j ==> (
            #[trigger] self.kernels@[i]).key() != (#[trigger] self.kernels@[j]).key()
    }

    /// An empty cache.
    pub fn new() -> (cache: KernelCache)
        ensures
            cache@ == Map::<KernelKey, usize>::empty(),
    {
        KernelCache { kernels: Vec::new() }
    }

    /// The handle of the kernel `entry` of `source`, if it was built.
    pub fn lookup(&self, source: &str, entry: &str) -> (r: Option<usize>)
        ensures
            r == (if self@.contains_key((source@, entry@)) {
                Some(self@[(source@, entry@)])
            } else {
                None
            }),
    {
        let wanted_source = source.to_owned();
        let wanted_entry = entry.to_owned();
        let ghost key = (source@, entry@);
        let mut i = self.kernels.len();
        assert(self.kernels@.take(i as int) == self.kernels@);
        while i > 0
            invariant
                i <= self.kernels@.len(),
                key == (source@, entry@),
                wanted_source@ == source@,
                wanted_entry@ == entry@,
                filed(self.kernels@).contains_key(key) == filed(
                    self.kernels@.take(i as int),
                ).contains_key(key),
                filed(self.kernels@).contains_key(key) ==> filed(self.kernels@)[key] == filed(
                    self.kernels@.take(i as int),
                )[key],
            decreases i,
        {
            let ghost upto = self.kernels@.take(i as int);
            assert(upto.drop_last() == self.kernels@.take(i - 1));
            i = i - 1;
            if self.kernels[i].source == wanted_source && self.kernels[i].entry == wanted_entry {
                return Some(self.kernels[i].handle);
            }
        }
        None
    }

    /// Number of kernels in the cache.
    pub fn len(&self) -> (n: usize)
        ensures
            self@.dom().finite(),
            n == self@.dom().len(),
    {
        proof {
            use_type_invariant(self);
            lemma_filed_size(self.kernels@);
        }
        self.kernels.len()
    }

    /// Takes in what a build of the kernel `entry` of `source` gave.  The
    /// handle of a kernel that is filed already is kept and returned,
    /// whatever the outcome is; else a handle is filed and returned, and a
    /// diagnostic comes back as the error.
    pub fn record(&mut self, source: &str, entry: &str, outcome: Result<usize, String>) -> (r:
        Result<usize, Error>)
        ensures
            final(self)@ == recorded(old(self)@, (source@, entry@), outcome),
            old(self)@.contains_key((source@, entry@)) ==> r == Ok::<usize, Error>(
                old(self)@[(source@, entry@)],
            ),
            !old(self)@.contains_key((source@, entry@)) ==> match outcome {
                Ok(handle) => r == Ok::<usize, Error>(handle),
                Err(text) => r matches Err(Error::Compile(t)) && t@ == text@,
            },
    {
        match self.lookup(source, entry) {
            Some(handle) => Ok(handle),
            None => match outcome {
                Ok(handle) => {
                    let filed_entry = KernelEntry {
                        source: source.to_owned(),
                        entry: entry.to_owned(),
                        handle,
                    };
                    proof {
                        use_type_invariant(&*self);
                        lemma_filed_keys(self.kernels@);
                    }
                    let mut kernels: Vec<KernelEntry> = Vec::new();
                    core::mem::swap(&mut self.kernels, &mut kernels);
                    kernels.push(filed_entry);
                    assert(kernels@.drop_last() == old(self).kernels@);
                    core::mem::swap(&mut self.kernels, &mut kernels);
                    Ok(handle)
                },
                Err(text) => Err(Error::Compile(text)),
            },
        }
    }

    /// The handle of the kernel `entry` of `source`: the one in the cache,
    /// or the one that `compiler` builds now and that is filed for the next
    /// call.  The compiler is not called for a kernel that is filed, and
    /// once, for this source and this entry, for any other.
    pub fn get_or_compile<C: Compile>(&mut self, compiler: &mut C, source: &str, entry: &str) -> (r:
        Result<usize, Error>)
        ensures
            old(self)@.contains_key((source@, entry@)) ==> {
                &&& r == Ok::<usize, Error>(old(self)@[(source@, entry@)])
                &&& final(self)@ == old(self)@
                &&& *final(compiler) == *old(compiler)
            },
            !old(self)@.contains_key((source@, entry@)) ==> match r {
                Ok(handle) => final(self)@ == old(self)@.insert((source@, entry@), handle),
                Err(e) => e is Compile && final(self)@ == old(self)@,
            },
            r matches Ok(handle) ==> final(self)@ == recorded(
                old(self)@,
                (source@, entry@),
                Ok(handle),
            ),
            compiled(old(self)@, *old(compiler), source, entry, final(self)@, r),
            !old(self)@.contains_key((source@, entry@)) ==> exists|
                c: &mut C,
                outcome: Result<usize, String>,
            |
                *c == *old(compiler) && *final(c) == *final(compiler) && #[trigger] call_ensures(
                    C::compile,
                    (c, source, entry),
                    outcome,
                ) && final(self)@ == recorded(old(self)@, (source@, entry@), outcome),
    {
        match self.lookup(source, entry) {
            Some(handle) => Ok(handle),
            None => {
                let build = C::compile;
                let outcome = build(compiler, source, entry);
                assert(built(*old(compiler), source, entry, outcome));
                self.record(source, entry, outcome)
            },
        }
    }

    /// Forgets every kernel.
    pub fn clear(&mut self)
        ensures
            final(self)@ == Map::<KernelKey, usize>::empty(),
    {
        self.kernels = Vec::new();
    }
}

/// A kernel is built once: when the outcome of a build was taken in and
/// the build had succeeded, the kernel is filed, and taking in the outcome
/// of another build of it changes nothing.
pub proof fn lemma_built_once(
    kernels: Map<KernelKey, usize>,
    key: KernelKey,
    handle: usize,
    later: Result<usize, String>,
)
    ensures
        recorded(kernels, key, Ok(handle)).contains_key(key),
        !kernels.contains_key(key) ==> recorded(kernels, key, Ok(handle))[key] == handle,
        recorded(recorded(kernels, key, Ok(handle)), key, later) == recorded(
            kernels,
            key,
            Ok(handle),
        ),
{
}

/// Kernels with different keys are filed side by side.
pub proof fn lemma_built_apart(
    kernels: Map<KernelKey, usize>,
    first: KernelKey,
    second: KernelKey,
    a: usize,
    b: usize,
)
    requires
        first != second,
        !kernels.contains_key(first),
        !kernels.contains_key(second),
        kernels.dom().finite(),
    ensures
        recorded(recorded(kernels, first, Ok(a)), second, Ok(b)).dom().len() == kernels.dom().len()
            + 2,
{
}

/// The key of every entry is filed.
proof fn lemma_filed_keys(entries: Seq<KernelEntry>)
    ensures
        forall|i: int| 0 <= i < entries.len() ==> filed(entries).contains_key(
            (#[trigger] entries[i]).key(),
        ),
    decreases entries.len(),
{
    if entries.len() > 0 {
        let init = entries.drop_last();
        lemma_filed_keys(init);
        assert forall|i: int| 0 <= i < entries.len() implies filed(entries).contains_key(
            (#[trigger] entries[i]).key(),
        ) by {
            if i < init.len() {
                assert(init[i] == entries[i]);
            }
        }
    }
}

/// Entries with distinct keys file as many kernels as there are entries,
/// each under its key.
proof fn lemma_filed_size(entries: Seq<KernelEntry>)
    requires
        forall|i: int, j: int|
            0 <= i < entries.len() && 0 <= j < entries.len() && i != j ==> (#[trigger] entries[i]).key()
                != (#[trigger] entries[j]).key(),
    ensures
        filed(entries).dom().finite(),
        filed(entries).dom().len() == entries.len(),
        forall|key: KernelKey| #[trigger]
            filed(entries).contains_key(key) ==> exists|i: int|
                0 <= i < entries.len() && (#[trigger] entries[i]).key() == key,
    decreases entries.len(),
{
    if entries.len() > 0 {
        let init = entries.drop_last();
        assert forall|i: int, j: int|
            0 <= i < init.len() && 0 <= j < init.len() && i != j implies (#[trigger] init[i]).key()
            != (#[trigger] init[j]).key() by {
        }
        lemma_filed_size(init);
        assert forall|key: KernelKey| #[trigger] filed(entries).contains_key(key) implies exists|
            i: int,
        |
            0 <= i < entries.len() && (#[trigger] entries[i]).key() == key by {
        }
    }
}

} // verus!

use crate::buffer::Buffer;
use crate::device::Device;
use crate::error::Error;
use crate::kernel::{compiled, Compile, Kernel, KernelCache};
use crate::memory::{Alloc, CpuPtr};
use vstd::prelude::*;

verus! {

/// One argument of a kernel: a region or a number.
#[derive(Debug, PartialEq)]
pub enum Arg<T> {
    Buffer(CpuPtr),
    Number(T),
}

impl<T: Copy> Clone for Arg<T> {
    fn clone(&self) -> (copy: Arg<T>)
        ensures
            copy == *self,
    {
        *self
    }
}

impl<T: Copy> Copy for Arg<T> {

}

/// Something that can be handed to a kernel as an argument.
pub trait KernelArg<T> {
    /// The argument that this value stands for.
    spec fn arg(&self) -> Arg<T>;

    /// The region, where the argument is one.
    fn buffer(&self) -> (r: Option<CpuPtr>)
        ensures
            r == (match self.arg() {
                Arg::Buffer(ptr) => Some(ptr),
                Arg::Number(_) => None,
            }),
    ;

    /// The number, where the argument is one.
    fn number(&self) -> (r: Option<T>)
        ensures
            r == (match self.arg() {
                Arg::Buffer(_) => None,
                Arg::Number(n) => Some(n),
            }),
    ;
}

impl<T> KernelArg<T> for Buffer<T> {
    open spec fn arg(&self) -> Arg<T> {
        Arg::Buffer(self.ptr)
    }

    fn buffer(&self) -> (r: Option<CpuPtr>) {
        Some(self.ptr)
    }

    fn number(&self) -> (r: Option<T>) {
        None
    }
}

impl<'a, T> KernelArg<T> for &'a Buffer<T> {
    open spec fn arg(&self) -> Arg<T> {
        Arg::Buffer(self.ptr)
    }

    fn buffer(&self) -> (r: Option<CpuPtr>) {
        Some(self.ptr)
    }

    fn number(&self) -> (r: Option<T>) {
        None
    }
}

impl<T: Copy> KernelArg<T> for T {
    open spec fn arg(&self) -> Arg<T> {
        Arg::Number(*self)
    }

    fn buffer(&self) -> (r: Option<CpuPtr>) {
        None
    }

    fn number(&self) -> (r: Option<T>) {
        Some(*self)
    }
}

/// The number of dimensions that a global extent spans: the extents up to
/// the first that is 0.  An extent whose first entry is 0 spans none.
pub open spec fn work_dim(gws: [usize; 3]) -> nat {
    if gws[0] == 0 {
        0
    } else if gws[1] == 0 {
        1
    } else if gws[2] == 0 {
        2
    } else {
        3
    }
}

/// Everything that a launch of a kernel needs, worked out and ready to be
/// handed to the backend.
#[derive(Debug, PartialEq)]
pub struct Launch<T> {
    pub kernel: Kernel,
    /// The arguments, in the order of the kernel's parameters.
    pub args: Vec<Arg<T>>,
    /// Number of dimensions of the extents, 1 to 3.
    pub wd: usize,
    pub gws: [usize; 3],
    pub lws: Option<[usize; 3]>,
    pub offset: Option<[usize; 3]>,
    /// Address and length of the region that holds the result.
    pub out: CpuPtr,
    pub out_len: usize,
}

/// What the backend calls the kernel of a launch that was worked out, or
/// the error where it was not.
pub open spec fn handle_of<T>(r: Result<Launch<T>, Error>) -> Result<usize, Error> {
    match r {
        Ok(launch) => Ok(launch.kernel.handle),
        Err(e) => Err(e),
    }
}

/// The launch of a kernel in the making: source and entry point, the
/// arguments in the order of the kernel's parameters, and the geometry.
pub struct KernelOptions<'a, T> {
    pub src: &'a str,
    pub entry: &'a str,
    pub lhs: &'a Buffer<T>,
    pub rhs: Option<&'a Buffer<T>>,
    pub output: Option<Buffer<T>>,
    /// The arguments given so far; the position of each is its index here.
    pub args: Vec<Arg<T>>,
    pub gws: [usize; 3],
    pub lws: Option<[usize; 3]>,
    pub offset: Option<[usize; 3]>,
    pub wd: usize,
    /// Number of the device that the kernel runs on.
    pub device: usize,
}

impl<'a, T: Copy> KernelOptions<'a, T> {
    /// The arguments that the launch hands to the kernel: those given, and
    /// after them the output, where there is one.
    pub open spec fn launch_args(&self) -> Seq<Arg<T>> {
        match self.output {
            Some(out) => self.args@.push(Arg::Buffer(out.ptr)),
            None => self.args@,
        }
    }

    /// The region that holds the result: the output, or else the first
    /// operand.
    pub open spec fn result(&self) -> (CpuPtr, usize) {
        match self.output {
            Some(out) => (out.ptr, out.len),
            None => (self.lhs.ptr, self.lhs.len),
        }
    }

    /// A launch of the kernel `entry` of `src` on the device with the
    /// number `device`, over the global extent `gws`, with `lhs` as the
    /// first argument.  The extent spans as many dimensions as it has
    /// entries before the first 0; the first entry must not be 0.
    pub fn new(
        device: usize,
        lhs: &'a Buffer<T>,
        gws: [usize; 3],
        src: &'a str,
        entry: &'a str,
    ) -> (options: KernelOptions<'a, T>)
        requires
            gws[0] != 0,
        ensures
            options.src == src,
            options.entry == entry,
            options.lhs == lhs,
            options.rhs is None,
            options.output is None,
            options.args@ == seq![Arg::<T>::Buffer(lhs.ptr)],
            options.gws == gws,
            options.lws is None,
            options.offset is None,
            options.wd == work_dim(gws),
            options.device == device,
    {
        let wd: usize;
        if gws[1] == 0 {
            wd = 1;
        } else if gws[2] == 0 {
            wd = 2;
        } else {
            wd = 3;
        }
        let mut args: Vec<Arg<T>> = Vec::new();
        args.push(Arg::Buffer(lhs.ptr));
        KernelOptions {
            src,
            entry,
            lhs,
            rhs: None,
            output: None,
            args,
            gws,
            lws: None,
            offset: None,
            wd,
            device,
        }
    }

    /// Sets the extent of a work group.
    pub fn with_lws(&mut self, lws: [usize; 3]) -> (options: &mut KernelOptions<'a, T>)
        ensures
            *options == (KernelOptions { lws: Some(lws), ..*old(self) }),
            *final(self) == *final(options),
    {
        self.lws = Some(lws);
        self
    }

    /// Sets the offset of the global extent.
    pub fn with_offset(&mut self, offset: [usize; 3]) -> (options: &mut KernelOptions<'a, T>)
        ensures
            *options == (KernelOptions { offset: Some(offset), ..*old(self) }),
            *final(self) == *final(options),
    {
        self.offset = Some(offset);
        self
    }

    /// Names the second operand and gives it to the kernel as the next
    /// argument.
    pub fn with_rhs(&mut self, rhs: &'a Buffer<T>) -> (options: &mut KernelOptions<'a, T>)
        ensures
            options.args@ == old(self).args@.push(Arg::Buffer(rhs.ptr)),
            options.rhs == Some(rhs),
            options.src == old(self).src,
            options.entry == old(self).entry,
            options.lhs == old(self).lhs,
            options.output == old(self).output,
            options.gws == old(self).gws,
            options.lws == old(self).lws,
            options.offset == old(self).offset,
            options.wd == old(self).wd,
            options.device == old(self).device,
            *final(self) == *final(options),
    {
        self.args.push(Arg::Buffer(rhs.ptr));
        self.rhs = Some(rhs);
        self
    }

    /// Gives `arg` to the kernel as the next argument.
    pub fn add_arg<A: KernelArg<T>>(&mut self, arg: &A) -> (options: &mut KernelOptions<'a, T>)
        ensures
            options.args@ == old(self).args@.push(arg.arg()),
            options.rhs == old(self).rhs,
            options.src == old(self).src,
            options.entry == old(self).entry,
            options.lhs == old(self).lhs,
            options.output == old(self).output,
            options.gws == old(self).gws,
            options.lws == old(self).lws,
            options.offset == old(self).offset,
            options.wd == old(self).wd,
            options.device == old(self).device,
            *final(self) == *final(options),
    {
        match arg.number() {
            Some(number) => self.args.push(Arg::Number(number)),
            None => match arg.buffer() {
                Some(ptr) => self.args.push(Arg::Buffer(ptr)),
                None => {
                    assert(false);
                },
            },
        }
        self
    }

    /// Names `out` as the buffer for the result; the kernel gets it as its
    /// last argument.
    pub fn set_output(&mut self, out: Buffer<T>) -> (options: &mut KernelOptions<'a, T>)
        ensures
            *options == (KernelOptions { output: Some(out), ..*old(self) }),
            *final(self) == *final(options),
    {
        self.output = Some(out);
        self
    }

    /// Retrieves a buffer of `out_dims.0` rows and `out_dims.1` columns
    /// from `device` for the result; the kernel gets it as its last
    /// argument.  Fails where the device is another than the one given at
    /// the start, where the number of elements does not fit `usize`, and
    /// where the retrieval fails.
    pub fn with_output<B: Alloc<Elem = T>>(&mut self, device: &mut Device<B>, out_dims: (usize, usize)) -> (r:
        Result<(), Error>)
        requires
            old(device).wf(),
        ensures
            final(device).wf(),
            old(device).consistent() ==> final(device).consistent(),
            final(self).args@ == old(self).args@,
            final(self).rhs == old(self).rhs,
            final(self).src == old(self).src,
            final(self).entry == old(self).entry,
            final(self).lhs == old(self).lhs,
            final(self).gws == old(self).gws,
            final(self).lws == old(self).lws,
            final(self).offset == old(self).offset,
            final(self).wd == old(self).wd,
            final(self).device == old(self).device,
            final(self).output == (match r {
                Ok(_) => final(self).output,
                Err(_) => old(self).output,
            }),
            old(self).device != old(device).id() ==> {
                &&& r == Err::<(), Error>(Error::DeviceMismatch)
                &&& *final(device) == *old(device)
            },
            old(self).device == old(device).id() && out_dims.0 * out_dims.1 > usize::MAX ==> {
                &&& r == Err::<(), Error>(Error::Allocation)
                &&& *final(device) == *old(device)
            },
            old(self).device == old(device).id() && out_dims.0 * out_dims.1 <= usize::MAX ==> {
                &&& old(device).retrieval(
                    final(device),
                    crate::node::Node {
                        idx: old(device).count() as usize,
                        len: (out_dims.0 * out_dims.1) as usize,
                        parents: None,
                    },
                    match r {
                        Ok(_) => Ok(final(self).output->0),
                        Err(e) => Err(e),
                    },
                )
                &&& r is Ok ==> final(self).output is Some
            },
    {
        if self.device != device.memory().device_id() {
            return Err(Error::DeviceMismatch);
        }
        let len = match out_dims.0.checked_mul(out_dims.1) {
            Some(len) => len,
            None => {
                return Err(Error::Allocation);
            },
        };
        match device.cached(len) {
            Ok(out) => {
                self.output = Some(out);
                Ok(())
            },
            Err(e) => Err(e),
        }
    }

    /// Works the launch out: finds the kernel among `kernels`, or has
    /// `compiler` build it, and puts the arguments and the geometry
    /// together.  The launch itself is left to the caller.
    pub fn plan<C: Compile>(&self, kernels: &mut KernelCache, compiler: &mut C) -> (r: Result<
        Launch<T>,
        Error,
    >)
        ensures
            old(kernels)@.contains_key((self.src@, self.entry@)) ==> {
                &&& r matches Ok(launch)
                &&& launch.kernel.handle == old(kernels)@[(self.src@, self.entry@)]
                &&& final(kernels)@ == old(kernels)@
                &&& *final(compiler) == *old(compiler)
            },
            !old(kernels)@.contains_key((self.src@, self.entry@)) ==> match r {
                Ok(launch) => final(kernels)@ == old(kernels)@.insert(
                    (self.src@, self.entry@),
                    launch.kernel.handle,
                ),
                Err(e) => e is Compile && final(kernels)@ == old(kernels)@,
            },
            compiled(
                old(kernels)@,
                *old(compiler),
                self.src,
                self.entry,
                final(kernels)@,
                handle_of(r),
            ),
            r matches Ok(launch) ==> {
                &&& launch.kernel.device == self.device
                &&& launch.args@ == self.launch_args()
                &&& launch.wd == self.wd
                &&& launch.gws == self.gws
                &&& launch.lws == self.lws
                &&& launch.offset == self.offset
                &&& (launch.out, launch.out_len) == self.result()
            },
    {
        let handle = match kernels.get_or_compile(compiler, self.src, self.entry) {
            Ok(handle) => handle,
            Err(e) => {
                return Err(e);
            },
        };
        let mut args: Vec<Arg<T>> = Vec::new();
        let mut i: usize = 0;
        while i < self.args.len()
            invariant
                i <= self.args@.len(),
                args@ == self.args@.take(i as int),
            decreases self.args@.len() - i,
        {
            args.push(self.args[i]);
            i = i + 1;
        }
        let (out, out_len) = match &self.output {
            Some(output) => {
                args.push(Arg::Buffer(output.ptr));
                (output.ptr, output.len)
            },
            None => (self.lhs.ptr, self.lhs.len),
        };
        Ok(
            Launch {
                kernel: Kernel { device: self.device, handle },
                args,
                wd: self.wd,
                gws: self.gws,
                lws: self.lws,
                offset: self.offset,
                out,
                out_len,
            },
        )
    }

    /// Works the launch out for `device`, with the kernels that were built
    /// for it.  Fails where the launch was made for another device.
    pub fn run<B: Alloc<Elem = T>, C: Compile>(&self, device: &mut Device<B>, compiler: &mut C) -> (r:
        Result<Launch<T>, Error>)
        requires
            old(device).wf(),
        ensures
            final(device).wf(),
            final(device).backend() == old(device).backend(),
            final(device).cache() == old(device).cache(),
            final(device).graph() == old(device).graph(),
            final(device).owned() == old(device).owned(),
            self.device != old(device).id() ==> {
                &&& r matches Err(e)
                &&& e == Error::DeviceMismatch
                &&& final(device).kernels() == old(device).kernels()
                &&& *final(compiler) == *old(compiler)
            },
            self.device == old(device).id() ==> {
                let key = (self.src@, self.entry@);
                &&& old(device).kernels().contains_key(key) ==> {
                    &&& r matches Ok(launch)
                    &&& launch.kernel.handle == old(device).kernels()[key]
                    &&& final(device).kernels() == old(device).kernels()
                    &&& *final(compiler) == *old(compiler)
                }
                &&& !old(device).kernels().contains_key(key) ==> match r {
                    Ok(launch) => final(device).kernels() == old(device).kernels().insert(
                        key,
                        launch.kernel.handle,
                    ),
                    Err(e) => e is Compile && final(device).kernels() == old(device).kernels(),
                }
            },
            self.device == old(device).id() ==> compiled(
                old(device).kernels(),
                *old(compiler),
                self.src,
                self.entry,
                final(device).kernels(),
                handle_of(r),
            ),
            r matches Ok(launch) ==> {
                &&& launch.kernel.device == self.device
                &&& launch.args@ == self.launch_args()
                &&& launch.wd == self.wd
                &&& launch.gws == self.gws
                &&& launch.lws == self.lws
                &&& launch.offset == self.offset
                &&& (launch.out, launch.out_len) == self.result()
            },
    {
        device.launch(self, compiler)
    }
}

} // verus!

//! Size limits and tuning constants.
use vstd::prelude::*;

verus! {

/// A time interval: whole seconds and the nanoseconds beyond them.
#[derive(Clone, Copy, Debug, PartialEq, Eq, Structural)]
pub struct Timeout {
    pub secs: u64,
    pub nanos: u32,
}

impl Timeout {
    /// The interval in nanoseconds.
    pub open spec fn total(&self) -> int {
        self.secs * 1_000_000_000 + self.nanos
    }

    /// The nanoseconds make up less than a second.
    pub open spec fn wf(&self) -> bool {
        self.nanos < 1_000_000_000
    }

    /// A number of seconds.
    pub fn from_secs(secs: u64) -> (t: Timeout)
        ensures
            t == (Timeout { secs, nanos: 0 }),
            t.wf(),
    {
        Timeout { secs, nanos: 0 }
    }

    /// A number of milliseconds.
    pub fn from_millis(millis: u64) -> (t: Timeout)
        ensures
            t.wf(),
            t.total() == millis * 1_000_000,
    {
        Timeout { secs: millis / 1000, nanos: ((millis % 1000) * 1_000_000) as u32 }
    }

    /// Whether this interval is no longer than another.
    pub fn at_most(&self, other: &Timeout) -> (b: bool)
        requires
            self.wf(),
            other.wf(),
        ensures
            b == (self.total() <= other.total()),
    {
        if self.secs != other.secs {
            self.secs < other.secs
        } else {
            self.nanos <= other.nanos
        }
    }
}

/// Whether the response timeout does not exceed the body timeout, where both
/// are set.
pub open spec fn timeouts_ordered(res: Option<Timeout>, body: Option<Timeout>) -> bool {
    res is Some && body is Some ==> res->0.total() <= body->0.total()
}

/// Whether both timeouts, where set, are consistent.
pub open spec fn timeouts_wf(res: Option<Timeout>, body: Option<Timeout>) -> bool {
    &&& res is Some ==> res->0.wf()
    &&& body is Some ==> body->0.wf()
}

/// Size limits and tuning constants for bodies. Setters are on [`Tuner`].
#[derive(Debug)]
pub struct Tunables {
    pub max_body_ram: u64,
    pub max_body: u64,
    pub buffer_size_ram: usize,
    pub buffer_size_fs: usize,
    pub size_estimate_deflate: u16,
    pub size_estimate_gzip: u16,
    pub size_estimate_brotli: u16,
    pub temp_dir: Option<String>,
    pub res_timeout: Option<Timeout>,
    pub body_timeout: Option<Timeout>,
}

/// What two sets of constants have in common when one is a copy of the other.
pub open spec fn same_tunables(a: Tunables, b: Tunables) -> bool {
    &&& a.max_body_ram == b.max_body_ram
    &&& a.max_body == b.max_body
    &&& a.buffer_size_ram == b.buffer_size_ram
    &&& a.buffer_size_fs == b.buffer_size_fs
    &&& a.size_estimate_deflate == b.size_estimate_deflate
    &&& a.size_estimate_gzip == b.size_estimate_gzip
    &&& a.size_estimate_brotli == b.size_estimate_brotli
    &&& a.temp_dir is Some == b.temp_dir is Some
    &&& a.temp_dir is Some ==> a.temp_dir->0@ == b.temp_dir->0@
    &&& a.res_timeout == b.res_timeout
    &&& a.body_timeout == b.body_timeout
}

impl Clone for Tunables {
    fn clone(&self) -> (r: Tunables)
        ensures
            same_tunables(r, *self),
    {
        Tunables {
            max_body_ram: self.max_body_ram,
            max_body: self.max_body,
            buffer_size_ram: self.buffer_size_ram,
            buffer_size_fs: self.buffer_size_fs,
            size_estimate_deflate: self.size_estimate_deflate,
            size_estimate_gzip: self.size_estimate_gzip,
            size_estimate_brotli: self.size_estimate_brotli,
            temp_dir: match &self.temp_dir {
                Some(d) => Some(d.clone()),
                None => None,
            },
            res_timeout: self.res_timeout,
            body_timeout: self.body_timeout,
        }
    }
}

impl Tunables {
    /// Buffers and size estimates are not zero, the limit in RAM is within the
    /// limit in any form, and the timeouts are consistent and ordered.
    pub open spec fn wf(&self) -> bool {
        &&& self.max_body_ram <= self.max_body
        &&& self.buffer_size_ram > 0
        &&& self.buffer_size_fs > 0
        &&& self.size_estimate_deflate > 0
        &&& self.size_estimate_gzip > 0
        &&& self.size_estimate_brotli > 0
        &&& timeouts_wf(self.res_timeout, self.body_timeout)
        &&& timeouts_ordered(self.res_timeout, self.body_timeout)
    }

    /// The default values.
    pub open spec fn is_default(&self) -> bool {
        &&& self.max_body_ram == 192 * 1024
        &&& self.max_body == 1024 * 1024 * 1024
        &&& self.buffer_size_ram == 8 * 1024
        &&& self.buffer_size_fs == 64 * 1024
        &&& self.size_estimate_deflate == 4
        &&& self.size_estimate_gzip == 5
        &&& self.size_estimate_brotli == 6
        &&& self.temp_dir is None
        &&& self.res_timeout is None
        &&& self.body_timeout == Some(Timeout { secs: 60, nanos: 0 })
    }

    /// Construct with the default values.
    pub fn new() -> (r: Tunables)
        ensures
            r.is_default(),
            r.wf(),
    {
        Tunables {
            max_body_ram: 192 * 1024,
            max_body: 1024 * 1024 * 1024,
            buffer_size_ram: 8 * 1024,
            buffer_size_fs: 64 * 1024,
            size_estimate_deflate: 4,
            size_estimate_gzip: 5,
            size_estimate_brotli: 6,
            temp_dir: None,
            res_timeout: None,
            body_timeout: Some(Timeout::from_secs(60)),
        }
    }

    /// The maximum body size in bytes that is kept in RAM, before a temporary
    /// file is used. Default: 192 KiB.
    pub fn max_body_ram(&self) -> (r: u64)
        ensures
            r == self.max_body_ram,
    {
        self.max_body_ram
    }

    /// The maximum body size in bytes that is allowed in any form. Default:
    /// 1 GiB.
    pub fn max_body(&self) -> (r: u64)
        ensures
            r == self.max_body,
    {
        self.max_body
    }

    /// The buffer size in bytes for buffering to RAM. Default: 8 KiB.
    pub fn buffer_size_ram(&self) -> (r: usize)
        ensures
            r == self.buffer_size_ram,
    {
        self.buffer_size_ram
    }

    /// The buffer size in bytes for buffering to and from files. Default:
    /// 64 KiB.
    pub fn buffer_size_fs(&self) -> (r: usize)
        ensures
            r == self.buffer_size_fs,
    {
        self.buffer_size_fs
    }

    /// The size estimate for _deflate_, as a multiple of the encoded size.
    /// Default: 4.
    pub fn size_estimate_deflate(&self) -> (r: u16)
        ensures
            r == self.size_estimate_deflate,
    {
        self.size_estimate_deflate
    }

    /// The size estimate for _gzip_, as a multiple of the encoded size.
    /// Default: 5.
    pub fn size_estimate_gzip(&self) -> (r: u16)
        ensures
            r == self.size_estimate_gzip,
    {
        self.size_estimate_gzip
    }

    /// The size estimate for _Brotli_, as a multiple of the encoded size.
    /// Default: 6.
    pub fn size_estimate_brotli(&self) -> (r: u16)
        ensures
            r == self.size_estimate_brotli,
    {
        self.size_estimate_brotli
    }

    /// The directory for temporary files. `None`, the default, stands for the
    /// directory that the system uses.
    pub fn temp_dir(&self) -> (r: Option<&String>)
        ensures
            r is Some == self.temp_dir is Some,
            r is Some ==> *r->0 == self.temp_dir->0,
    {
        self.temp_dir.as_ref()
    }

    /// The maximum time until the initial response. Default: none.
    pub fn res_timeout(&self) -> (r: Option<Timeout>)
        ensures
            r == self.res_timeout,
    {
        self.res_timeout
    }

    /// The maximum time until the body is complete. Default: 60 seconds.
    pub fn body_timeout(&self) -> (r: Option<Timeout>)
        ensures
            r == self.body_timeout,
    {
        self.body_timeout
    }
}

impl Default for Tunables {
    fn default() -> (r: Tunables)
        ensures
            r.is_default(),
            r.wf(),
    {
        Tunables::new()
    }
}

/// A builder for [`Tunables`].
pub struct Tuner {
    pub template: Tunables,
}

impl Clone for Tuner {
    fn clone(&self) -> (r: Tuner)
        ensures
            same_tunables(r.template, self.template),
    {
        Tuner { template: self.template.clone() }
    }
}

impl Tuner {
    /// Buffers and size estimates are not zero, and the timeouts are
    /// consistent.
    pub open spec fn wf(&self) -> bool {
        &&& self.template.buffer_size_ram > 0
        &&& self.template.buffer_size_fs > 0
        &&& self.template.size_estimate_deflate > 0
        &&& self.template.size_estimate_gzip > 0
        &&& self.template.size_estimate_brotli > 0
        &&& timeouts_wf(self.template.res_timeout, self.template.body_timeout)
    }

    /// Start with all the defaults.
    pub fn new() -> (r: Tuner)
        ensures
            r.template.is_default(),
            r.wf(),
    {
        Tuner { template: Tunables::new() }
    }

    /// Set the maximum body size in bytes that is kept in RAM.
    pub fn set_max_body_ram(&mut self, size: u64) -> (r: &mut Tuner)
        ensures
            r.template == (Tunables { max_body_ram: size, ..old(self).template }),
            *final(self) == *final(r),
    {
        self.template.max_body_ram = size;
        self
    }

    /// Set the maximum body size in bytes that is allowed in any form. It must
    /// be at least that in RAM by the time of [`Tuner::finish`].
    pub fn set_max_body(&mut self, size: u64) -> (r: &mut Tuner)
        ensures
            r.template == (Tunables { max_body: size, ..old(self).template }),
            *final(self) == *final(r),
    {
        self.template.max_body = size;
        self
    }

    /// Set the buffer size in bytes for buffering to RAM.
    pub fn set_buffer_size_ram(&mut self, size: usize) -> (r: &mut Tuner)
        requires
            size > 0,
        ensures
            r.template == (Tunables { buffer_size_ram: size, ..old(self).template }),
            *final(self) == *final(r),
    {
        self.template.buffer_size_ram = size;
        self
    }

    /// Set the buffer size in bytes for buffering to and from files.
    pub fn set_buffer_size_fs(&mut self, size: usize) -> (r: &mut Tuner)
        requires
            size > 0,
        ensures
            r.template == (Tunables { buffer_size_fs: size, ..old(self).template }),
            *final(self) == *final(r),
    {
        self.template.buffer_size_fs = size;
        self
    }

    /// Set the size estimate for _deflate_.
    pub fn set_size_estimate_deflate(&mut self, multiple: u16) -> (r: &mut Tuner)
        requires
            multiple > 0,
        ensures
            r.template == (Tunables { size_estimate_deflate: multiple, ..old(self).template }),
            *final(self) == *final(r),
    {
        self.template.size_estimate_deflate = multiple;
        self
    }

    /// Set the size estimate for _gzip_.
    pub fn set_size_estimate_gzip(&mut self, multiple: u16) -> (r: &mut Tuner)
        requires
            multiple > 0,
        ensures
            r.template == (Tunables { size_estimate_gzip: multiple, ..old(self).template }),
            *final(self) == *final(r),
    {
        self.template.size_estimate_gzip = multiple;
        self
    }

    /// Set the size estimate for _Brotli_.
    pub fn set_size_estimate_brotli(&mut self, multiple: u16) -> (r: &mut Tuner)
        requires
            multiple > 0,
        ensures
            r.template == (Tunables { size_estimate_brotli: multiple, ..old(self).template }),
            *final(self) == *final(r),
    {
        self.template.size_estimate_brotli = multiple;
        self
    }

    /// Set the directory for temporary files.
    pub fn set_temp_dir(&mut self, path: &str) -> (r: &mut Tuner)
        ensures
            r.template.temp_dir is Some,
            r.template.temp_dir->0@ == path@,
            r.template == (Tunables { temp_dir: r.template.temp_dir, ..old(self).template }),
            *final(self) == *final(r),
    {
        self.template.temp_dir = Some(path.to_owned());
        self
    }

    /// Set the maximum time until the initial response.
    pub fn set_res_timeout(&mut self, dur: Timeout) -> (r: &mut Tuner)
        ensures
            r.template == (Tunables { res_timeout: Some(dur), ..old(self).template }),
            *final(self) == *final(r),
    {
        self.template.res_timeout = Some(dur);
        self
    }

    /// Have no limit on the time until the initial response.
    pub fn unset_res_timeout(&mut self) -> (r: &mut Tuner)
        ensures
            r.template == (Tunables { res_timeout: None, ..old(self).template }),
            *final(self) == *final(r),
    {
        self.template.res_timeout = None;
        self
    }

    /// Set the maximum time until the body is complete.
    pub fn set_body_timeout(&mut self, dur: Timeout) -> (r: &mut Tuner)
        ensures
            r.template == (Tunables { body_timeout: Some(dur), ..old(self).template }),
            *final(self) == *final(r),
    {
        self.template.body_timeout = Some(dur);
        self
    }

    /// Have no limit on the time until the body is complete.
    pub fn unset_body_timeout(&mut self) -> (r: &mut Tuner)
        ensures
            r.template == (Tunables { body_timeout: None, ..old(self).template }),
            *final(self) == *final(r),
    {
        self.template.body_timeout = None;
        self
    }

    /// Finish building. The limit in RAM may not exceed the limit in any form,
    /// nor the response timeout the body timeout.
    pub fn finish(&self) -> (r: Tunables)
        requires
            self.template.max_body_ram <= self.template.max_body,
            timeouts_ordered(self.template.res_timeout, self.template.body_timeout),
        ensures
            same_tunables(r, self.template),
            self.wf() ==> r.wf(),
    {
        self.template.clone()
    }
}

impl Default for Tuner {
    fn default() -> (r: Tuner)
        ensures
            r.template.is_default(),
            r.wf(),
    {
        Tuner::new()
    }
}

/// How a blocking operation is run. `S` is a handle on a semaphore.
#[derive(Copy, Debug)]
pub enum BlockingPolicy<S> {
    /// On the current thread, without coordination.
    Direct,
    /// On the current thread, once a permit of the semaphore was obtained.
    Permit(S),
    /// By the dispatch pool that is registered on the current thread.
    Dispatch,
}

impl<S: Copy> Clone for BlockingPolicy<S> {
    fn clone(&self) -> (r: BlockingPolicy<S>)
        ensures
            r == *self,
    {
        *self
    }
}

/// Tuning constants for asynchronous I/O, in addition to [`Tunables`].
#[derive(Debug)]
pub struct FutioTunables<S> {
    pub image: Tunables,
    pub res_timeout: Option<Timeout>,
    pub body_timeout: Option<Timeout>,
    pub blocking_policy: BlockingPolicy<S>,
    pub stream_item_size: usize,
}

/// What two sets of constants have in common when one is a copy of the other.
pub open spec fn same_futio_tunables<S>(a: FutioTunables<S>, b: FutioTunables<S>) -> bool {
    &&& same_tunables(a.image, b.image)
    &&& a.res_timeout == b.res_timeout
    &&& a.body_timeout == b.body_timeout
    &&& a.blocking_policy == b.blocking_policy
    &&& a.stream_item_size == b.stream_item_size
}

impl<S: Copy> Clone for FutioTunables<S> {
    fn clone(&self) -> (r: FutioTunables<S>)
        ensures
            same_futio_tunables(r, *self),
    {
        FutioTunables {
            image: self.image.clone(),
            res_timeout: self.res_timeout,
            body_timeout: self.body_timeout,
            blocking_policy: self.blocking_policy,
            stream_item_size: self.stream_item_size,
        }
    }
}

impl<S: Copy> FutioTunables<S> {
    /// The item size is not zero, and the timeouts are consistent and ordered.
    pub open spec fn wf(&self) -> bool {
        &&& self.image.wf()
        &&& self.stream_item_size > 0
        &&& timeouts_wf(self.res_timeout, self.body_timeout)
        &&& timeouts_ordered(self.res_timeout, self.body_timeout)
    }

    /// The default values.
    pub open spec fn is_default(&self) -> bool {
        &&& self.image.is_default()
        &&& self.res_timeout is None
        &&& self.body_timeout == Some(Timeout { secs: 60, nanos: 0 })
        &&& self.blocking_policy is Direct
        &&& self.stream_item_size == 512 * 1024
    }

    /// Construct with the default values.
    pub fn new() -> (r: FutioTunables<S>)
        ensures
            r.is_default(),
            r.wf(),
    {
        FutioTunables {
            image: Tunables::new(),
            res_timeout: None,
            body_timeout: Some(Timeout::from_secs(60)),
            blocking_policy: BlockingPolicy::Direct,
            stream_item_size: 512 * 1024,
        }
    }

    /// The constants for bodies.
    pub fn image(&self) -> (r: &Tunables)
        ensures
            *r == self.image,
    {
        &self.image
    }

    /// The maximum size in bytes of the buffers that a split stream gives.
    /// Default: 512 KiB.
    pub fn stream_item_size(&self) -> (r: usize)
        ensures
            r == self.stream_item_size,
    {
        self.stream_item_size
    }

    /// The maximum time until the initial response. Default: none.
    pub fn res_timeout(&self) -> (r: Option<Timeout>)
        ensures
            r == self.res_timeout,
    {
        self.res_timeout
    }

    /// The maximum time until the body is complete. Default: 60 seconds.
    pub fn body_timeout(&self) -> (r: Option<Timeout>)
        ensures
            r == self.body_timeout,
    {
        self.body_timeout
    }

    /// The semaphore that limits concurrent blocking operations, if the policy
    /// has one.
    pub fn blocking_semaphore(&self) -> (r: Option<S>)
        ensures
            r == (match self.blocking_policy {
                BlockingPolicy::Permit(s) => Some(s),
                _ => None,
            }),
    {
        match self.blocking_policy {
            BlockingPolicy::Permit(s) => Some(s),
            _ => None,
        }
    }

    /// The policy for blocking operations. Default: `Direct`.
    pub fn blocking_policy(&self) -> (r: BlockingPolicy<S>)
        ensures
            r == self.blocking_policy,
    {
        self.blocking_policy
    }
}

impl<S: Copy> Default for FutioTunables<S> {
    fn default() -> (r: FutioTunables<S>)
        ensures
            r.is_default(),
            r.wf(),
    {
        FutioTunables::new()
    }
}

/// A builder for [`FutioTunables`].
pub struct FutioTuner<S> {
    pub template: FutioTunables<S>,
}

impl<S: Copy> FutioTuner<S> {
    /// Start with all the defaults.
    pub fn new() -> (r: FutioTuner<S>)
        ensures
            r.template.is_default(),
            r.template.wf(),
    {
        FutioTuner { template: FutioTunables::new() }
    }

    /// Set the constants for bodies.
    pub fn set_image(&mut self, image: Tunables) -> (r: &mut FutioTuner<S>)
        ensures
            r.template == (FutioTunables { image, ..old(self).template }),
            *final(self) == *final(r),
    {
        self.template.image = image;
        self
    }

    /// Set the maximum size in bytes of the buffers that a split stream gives.
    pub fn set_stream_item_size(&mut self, size: usize) -> (r: &mut FutioTuner<S>)
        requires
            size > 0,
        ensures
            r.template == (FutioTunables { stream_item_size: size, ..old(self).template }),
            *final(self) == *final(r),
    {
        self.template.stream_item_size = size;
        self
    }

    /// Set the maximum time until the initial response.
    pub fn set_res_timeout(&mut self, dur: Timeout) -> (r: &mut FutioTuner<S>)
        ensures
            r.template == (FutioTunables { res_timeout: Some(dur), ..old(self).template }),
            *final(self) == *final(r),
    {
        self.template.res_timeout = Some(dur);
        self
    }

    /// Have no limit on the time until the initial response.
    pub fn unset_res_timeout(&mut self) -> (r: &mut FutioTuner<S>)
        ensures
            r.template == (FutioTunables { res_timeout: None, ..old(self).template }),
            *final(self) == *final(r),
    {
        self.template.res_timeout = None;
        self
    }

    /// Set the maximum time until the body is complete.
    pub fn set_body_timeout(&mut self, dur: Timeout) -> (r: &mut FutioTuner<S>)
        ensures
            r.template == (FutioTunables { body_timeout: Some(dur), ..old(self).template }),
            *final(self) == *final(r),
    {
        self.template.body_timeout = Some(dur);
        self
    }

    /// Have no limit on the time until the body is complete.
    pub fn unset_body_timeout(&mut self) -> (r: &mut FutioTuner<S>)
        ensures
            r.template == (FutioTunables { body_timeout: None, ..old(self).template }),
            *final(self) == *final(r),
    {
        self.template.body_timeout = None;
        self
    }

    /// Set the policy for blocking operations.
    pub fn set_blocking_policy(&mut self, policy: BlockingPolicy<S>) -> (r: &mut FutioTuner<S>)
        ensures
            r.template == (FutioTunables { blocking_policy: policy, ..old(self).template }),
            *final(self) == *final(r),
    {
        self.template.blocking_policy = policy;
        self
    }

    /// Finish building. The response timeout may not exceed the body timeout.
    pub fn finish(&self) -> (r: FutioTunables<S>)
        requires
            timeouts_ordered(self.template.res_timeout, self.template.body_timeout),
        ensures
            same_futio_tunables(r, self.template),
            self.template.wf() ==> r.wf(),
    {
        self.template.clone()
    }
}

impl<S: Copy> Default for FutioTuner<S> {
    fn default() -> (r: FutioTuner<S>)
        ensures
            r.template.is_default(),
            r.template.wf(),
    {
        FutioTuner::new()
    }
}

/// A copy of the constants, and what is finished by a builder, has every one of
/// them as it was.
pub proof fn law_tunables_are_kept(t: Tuner, r: Tunables, copy: Tunables, copied: Tuner)
    requires
        call_ensures(Tuner::finish, (&t,), r),
        call_ensures(<Tunables as Clone>::clone, (&t.template,), copy),
        call_ensures(<Tuner as Clone>::clone, (&t,), copied),
    ensures
        forall|u: Tunables| #![trigger u.max_body]
            (u == r || u == copy || u == copied.template) ==> {
                &&& u.max_body_ram == t.template.max_body_ram
                &&& u.max_body == t.template.max_body
                &&& u.buffer_size_ram == t.template.buffer_size_ram
                &&& u.buffer_size_fs == t.template.buffer_size_fs
                &&& u.size_estimate_deflate == t.template.size_estimate_deflate
                &&& u.size_estimate_gzip == t.template.size_estimate_gzip
                &&& u.size_estimate_brotli == t.template.size_estimate_brotli
                &&& u.temp_dir is Some <==> t.template.temp_dir is Some
                &&& u.temp_dir is Some ==> u.temp_dir->0@ == t.template.temp_dir->0@
                &&& u.res_timeout == t.template.res_timeout
                &&& u.body_timeout == t.template.body_timeout
            },
{
}

/// A copy of the constants for asynchronous I/O, and what is finished by a
/// builder, has every one of them as it was.
pub proof fn law_futio_tunables_are_kept<S: Copy>(t: FutioTuner<S>, r: FutioTunables<S>, copy: FutioTunables<S>)
    requires
        call_ensures(FutioTuner::<S>::finish, (&t,), r),
        call_ensures(<FutioTunables<S> as Clone>::clone, (&t.template,), copy),
    ensures
        forall|u: FutioTunables<S>| #![trigger u.image]
            (u == r || u == copy) ==> {
                &&& u.res_timeout == t.template.res_timeout
                &&& u.body_timeout == t.template.body_timeout
                &&& u.blocking_policy == t.template.blocking_policy
                &&& u.stream_item_size == t.template.stream_item_size
                &&& u.image.max_body_ram == t.template.image.max_body_ram
                &&& u.image.max_body == t.template.image.max_body
                &&& u.image.buffer_size_ram == t.template.image.buffer_size_ram
                &&& u.image.buffer_size_fs == t.template.image.buffer_size_fs
                &&& u.image.size_estimate_deflate == t.template.image.size_estimate_deflate
                &&& u.image.size_estimate_gzip == t.template.image.size_estimate_gzip
                &&& u.image.size_estimate_brotli == t.template.image.size_estimate_brotli
                &&& u.image.temp_dir is Some <==> t.template.image.temp_dir is Some
                &&& u.image.temp_dir is Some ==> u.image.temp_dir->0@ == t.template.image.temp_dir->0@
                &&& u.image.res_timeout == t.template.image.res_timeout
                &&& u.image.body_timeout == t.template.image.body_timeout
            },
{
}

/// The constants that everything starts with: 192 KiB of a body in RAM, 1 GiB in
/// any form, buffers of 8 KiB and 64 KiB, estimates of 4, 5 and 6, the directory of
/// the system, and 60 seconds for the body.
pub proof fn law_default_tunables(a: Tunables, b: Tunables, c: Tuner, d: Tuner)
    requires
        call_ensures(Tunables::new, (), a),
        call_ensures(<Tunables as Default>::default, (), b),
        call_ensures(Tuner::new, (), c),
        call_ensures(<Tuner as Default>::default, (), d),
    ensures
        forall|u: Tunables| #![trigger u.max_body]
            (u == a || u == b || u == c.template || u == d.template) ==> {
                &&& u.max_body_ram == 196_608
                &&& u.max_body == 1_073_741_824
                &&& u.buffer_size_ram == 8_192
                &&& u.buffer_size_fs == 65_536
                &&& u.size_estimate_deflate == 4
                &&& u.size_estimate_gzip == 5
                &&& u.size_estimate_brotli == 6
                &&& u.temp_dir is None
                &&& u.res_timeout is None
                &&& u.body_timeout is Some
                &&& u.body_timeout->0.secs == 60
                &&& u.body_timeout->0.nanos == 0
            },
{
}

/// The constants that asynchronous I/O starts with: those for bodies, 60 seconds
/// for the body, items of 512 KiB, and blocking without coordination.
pub proof fn law_default_futio_tunables<S: Copy>(
    image: Tunables,
    a: FutioTunables<S>,
    b: FutioTunables<S>,
    c: FutioTuner<S>,
    d: FutioTuner<S>,
)
    requires
        call_ensures(Tunables::new, (), image),
        call_ensures(FutioTunables::<S>::new, (), a),
        call_ensures(<FutioTunables<S> as Default>::default, (), b),
        call_ensures(FutioTuner::<S>::new, (), c),
        call_ensures(<FutioTuner<S> as Default>::default, (), d),
    ensures
        forall|u: FutioTunables<S>| #![trigger u.image]
            (u == a || u == b || u == c.template || u == d.template) ==> {
                &&& u.image == image
                &&& u.res_timeout is None
                &&& u.body_timeout is Some
                &&& u.body_timeout->0.secs == 60
                &&& u.body_timeout->0.nanos == 0
                &&& u.blocking_policy is Direct
                &&& u.stream_item_size == 524_288
            },
{
}

/// A time interval of some milliseconds is that many millionths of nanoseconds,
/// one of some seconds is a thousand times as long as one of as many milliseconds,
/// and intervals are compared by how long they are.
pub proof fn law_time_intervals(n: u64, secs: Timeout, millis: Timeout, other: Timeout, b: bool)
    requires
        other.nanos < 1_000_000_000,
        call_ensures(Timeout::from_secs, (n,), secs),
        call_ensures(Timeout::from_millis, (n,), millis),
        call_ensures(Timeout::at_most, (&millis, &other), b),
    ensures
        secs.secs == n,
        secs.nanos == 0,
        millis.nanos < 1_000_000_000,
        millis.secs * 1_000_000_000 + millis.nanos == n * 1_000_000,
        b <==> n * 1_000_000 <= other.secs * 1_000_000_000 + other.nanos,
{
}

/// Each constant is what is shown of it.
pub proof fn law_tunables_shown(
    t: Tunables,
    ram: u64,
    most: u64,
    buffer_ram: usize,
    buffer_fs: usize,
    deflate: u16,
    gzip: u16,
    brotli: u16,
    dir: Option<&String>,
    res: Option<Timeout>,
    body: Option<Timeout>,
)
    requires
        call_ensures(Tunables::max_body_ram, (&t,), ram),
        call_ensures(Tunables::max_body, (&t,), most),
        call_ensures(Tunables::buffer_size_ram, (&t,), buffer_ram),
        call_ensures(Tunables::buffer_size_fs, (&t,), buffer_fs),
        call_ensures(Tunables::size_estimate_deflate, (&t,), deflate),
        call_ensures(Tunables::size_estimate_gzip, (&t,), gzip),
        call_ensures(Tunables::size_estimate_brotli, (&t,), brotli),
        call_ensures(Tunables::temp_dir, (&t,), dir),
        call_ensures(Tunables::res_timeout, (&t,), res),
        call_ensures(Tunables::body_timeout, (&t,), body),
    ensures
        ram == t.max_body_ram,
        most == t.max_body,
        buffer_ram == t.buffer_size_ram,
        buffer_fs == t.buffer_size_fs,
        deflate == t.size_estimate_deflate,
        gzip == t.size_estimate_gzip,
        brotli == t.size_estimate_brotli,
        dir is Some <==> t.temp_dir is Some,
        dir is Some ==> *dir->0 == t.temp_dir->0,
        res == t.res_timeout,
        body == t.body_timeout,
{
}

/// Each constant for asynchronous I/O is what is shown of it. There is a semaphore
/// only under the policy that has one.
pub proof fn law_futio_tunables_shown<S: Copy>(
    t: FutioTunables<S>,
    image: &Tunables,
    size: usize,
    res: Option<Timeout>,
    body: Option<Timeout>,
    semaphore: Option<S>,
    policy: BlockingPolicy<S>,
    copy: BlockingPolicy<S>,
)
    requires
        call_ensures(FutioTunables::<S>::image, (&t,), image),
        call_ensures(FutioTunables::<S>::stream_item_size, (&t,), size),
        call_ensures(FutioTunables::<S>::res_timeout, (&t,), res),
        call_ensures(FutioTunables::<S>::body_timeout, (&t,), body),
        call_ensures(FutioTunables::<S>::blocking_semaphore, (&t,), semaphore),
        call_ensures(FutioTunables::<S>::blocking_policy, (&t,), policy),
        call_ensures(<BlockingPolicy<S> as Clone>::clone, (&policy,), copy),
    ensures
        *image == t.image,
        size == t.stream_item_size,
        res == t.res_timeout,
        body == t.body_timeout,
        policy == t.blocking_policy,
        copy == policy,
        forall|s: S| semaphore == Some(s) <==> policy == BlockingPolicy::Permit(s),
        semaphore is None <==> policy is Direct || policy is Dispatch,
{
}

/// Setting the limit in RAM sets that, and nothing else.
pub proof fn law_set_max_body_ram(t: &mut Tuner, r: &mut Tuner, size: u64)
    requires
        call_ensures(Tuner::set_max_body_ram, (t, size), r),
    ensures
        *final(t) == *final(r),
        old(r).template.max_body_ram == size,
        old(r).template.max_body == old(t).template.max_body,
        old(r).template.buffer_size_ram == old(t).template.buffer_size_ram,
        old(r).template.buffer_size_fs == old(t).template.buffer_size_fs,
        old(r).template.size_estimate_deflate == old(t).template.size_estimate_deflate,
        old(r).template.size_estimate_gzip == old(t).template.size_estimate_gzip,
        old(r).template.size_estimate_brotli == old(t).template.size_estimate_brotli,
        old(r).template.temp_dir == old(t).template.temp_dir,
        old(r).template.res_timeout == old(t).template.res_timeout,
        old(r).template.body_timeout == old(t).template.body_timeout,
{
}

/// Setting the limit in any form sets that, and nothing else.
pub proof fn law_set_max_body(t: &mut Tuner, r: &mut Tuner, size: u64)
    requires
        call_ensures(Tuner::set_max_body, (t, size), r),
    ensures
        *final(t) == *final(r),
        old(r).template.max_body == size,
        old(r).template.max_body_ram == old(t).template.max_body_ram,
        old(r).template.buffer_size_ram == old(t).template.buffer_size_ram,
        old(r).template.buffer_size_fs == old(t).template.buffer_size_fs,
        old(r).template.size_estimate_deflate == old(t).template.size_estimate_deflate,
        old(r).template.size_estimate_gzip == old(t).template.size_estimate_gzip,
        old(r).template.size_estimate_brotli == old(t).template.size_estimate_brotli,
        old(r).template.temp_dir == old(t).template.temp_dir,
        old(r).template.res_timeout == old(t).template.res_timeout,
        old(r).template.body_timeout == old(t).template.body_timeout,
{
}

/// Setting the size of buffers in RAM sets that, and nothing else.
pub proof fn law_set_buffer_size_ram(t: &mut Tuner, r: &mut Tuner, size: usize)
    requires
        call_ensures(Tuner::set_buffer_size_ram, (t, size), r),
    ensures
        *final(t) == *final(r),
        old(r).template.buffer_size_ram == size,
        old(r).template.max_body_ram == old(t).template.max_body_ram,
        old(r).template.max_body == old(t).template.max_body,
        old(r).template.buffer_size_fs == old(t).template.buffer_size_fs,
        old(r).template.size_estimate_deflate == old(t).template.size_estimate_deflate,
        old(r).template.size_estimate_gzip == old(t).template.size_estimate_gzip,
        old(r).template.size_estimate_brotli == old(t).template.size_estimate_brotli,
        old(r).template.temp_dir == old(t).template.temp_dir,
        old(r).template.res_timeout == old(t).template.res_timeout,
        old(r).template.body_timeout == old(t).template.body_timeout,
{
}

/// Setting the size of buffers for files sets that, and nothing else.
pub proof fn law_set_buffer_size_fs(t: &mut Tuner, r: &mut Tuner, size: usize)
    requires
        call_ensures(Tuner::set_buffer_size_fs, (t, size), r),
    ensures
        *final(t) == *final(r),
        old(r).template.buffer_size_fs == size,
        old(r).template.max_body_ram == old(t).template.max_body_ram,
        old(r).template.max_body == old(t).template.max_body,
        old(r).template.buffer_size_ram == old(t).template.buffer_size_ram,
        old(r).template.size_estimate_deflate == old(t).template.size_estimate_deflate,
        old(r).template.size_estimate_gzip == old(t).template.size_estimate_gzip,
        old(r).template.size_estimate_brotli == old(t).template.size_estimate_brotli,
        old(r).template.temp_dir == old(t).template.temp_dir,
        old(r).template.res_timeout == old(t).template.res_timeout,
        old(r).template.body_timeout == old(t).template.body_timeout,
{
}

/// Setting the estimate for _deflate_ sets that, and nothing else.
pub proof fn law_set_size_estimate_deflate(t: &mut Tuner, r: &mut Tuner, multiple: u16)
    requires
        call_ensures(Tuner::set_size_estimate_deflate, (t, multiple), r),
    ensures
        *final(t) == *final(r),
        old(r).template.size_estimate_deflate == multiple,
        old(r).template.max_body_ram == old(t).template.max_body_ram,
        old(r).template.max_body == old(t).template.max_body,
        old(r).template.buffer_size_ram == old(t).template.buffer_size_ram,
        old(r).template.buffer_size_fs == old(t).template.buffer_size_fs,
        old(r).template.size_estimate_gzip == old(t).template.size_estimate_gzip,
        old(r).template.size_estimate_brotli == old(t).template.size_estimate_brotli,
        old(r).template.temp_dir == old(t).template.temp_dir,
        old(r).template.res_timeout == old(t).template.res_timeout,
        old(r).template.body_timeout == old(t).template.body_timeout,
{
}

/// Setting the estimate for _gzip_ sets that, and nothing else.
pub proof fn law_set_size_estimate_gzip(t: &mut Tuner, r: &mut Tuner, multiple: u16)
    requires
        call_ensures(Tuner::set_size_estimate_gzip, (t, multiple), r),
    ensures
        *final(t) == *final(r),
        old(r).template.size_estimate_gzip == multiple,
        old(r).template.max_body_ram == old(t).template.max_body_ram,
        old(r).template.max_body == old(t).template.max_body,
        old(r).template.buffer_size_ram == old(t).template.buffer_size_ram,
        old(r).template.buffer_size_fs == old(t).template.buffer_size_fs,
        old(r).template.size_estimate_deflate == old(t).template.size_estimate_deflate,
        old(r).template.size_estimate_brotli == old(t).template.size_estimate_brotli,
        old(r).template.temp_dir == old(t).template.temp_dir,
        old(r).template.res_timeout == old(t).template.res_timeout,
        old(r).template.body_timeout == old(t).template.body_timeout,
{
}

/// Setting the estimate for _Brotli_ sets that, and nothing else.
pub proof fn law_set_size_estimate_brotli(t: &mut Tuner, r: &mut Tuner, multiple: u16)
    requires
        call_ensures(Tuner::set_size_estimate_brotli, (t, multiple), r),
    ensures
        *final(t) == *final(r),
        old(r).template.size_estimate_brotli == multiple,
        old(r).template.max_body_ram == old(t).template.max_body_ram,
        old(r).template.max_body == old(t).template.max_body,
        old(r).template.buffer_size_ram == old(t).template.buffer_size_ram,
        old(r).template.buffer_size_fs == old(t).template.buffer_size_fs,
        old(r).template.size_estimate_deflate == old(t).template.size_estimate_deflate,
        old(r).template.size_estimate_gzip == old(t).template.size_estimate_gzip,
        old(r).template.temp_dir == old(t).template.temp_dir,
        old(r).template.res_timeout == old(t).template.res_timeout,
        old(r).template.body_timeout == old(t).template.body_timeout,
{
}

/// Setting the directory for temporary files sets that, and nothing else.
pub proof fn law_set_temp_dir(t: &mut Tuner, r: &mut Tuner, path: &str)
    requires
        call_ensures(Tuner::set_temp_dir, (t, path), r),
    ensures
        *final(t) == *final(r),
        old(r).template.temp_dir matches Some(d) && d@ == path@,
        old(r).template.max_body_ram == old(t).template.max_body_ram,
        old(r).template.max_body == old(t).template.max_body,
        old(r).template.buffer_size_ram == old(t).template.buffer_size_ram,
        old(r).template.buffer_size_fs == old(t).template.buffer_size_fs,
        old(r).template.size_estimate_deflate == old(t).template.size_estimate_deflate,
        old(r).template.size_estimate_gzip == old(t).template.size_estimate_gzip,
        old(r).template.size_estimate_brotli == old(t).template.size_estimate_brotli,
        old(r).template.res_timeout == old(t).template.res_timeout,
        old(r).template.body_timeout == old(t).template.body_timeout,
{
}

/// Limiting the time until the response sets that limit, and nothing else.
pub proof fn law_set_res_timeout(t: &mut Tuner, r: &mut Tuner, dur: Timeout)
    requires
        call_ensures(Tuner::set_res_timeout, (t, dur), r),
    ensures
        *final(t) == *final(r),
        old(r).template.res_timeout == Some(dur),
        old(r).template.max_body_ram == old(t).template.max_body_ram,
        old(r).template.max_body == old(t).template.max_body,
        old(r).template.buffer_size_ram == old(t).template.buffer_size_ram,
        old(r).template.buffer_size_fs == old(t).template.buffer_size_fs,
        old(r).template.size_estimate_deflate == old(t).template.size_estimate_deflate,
        old(r).template.size_estimate_gzip == old(t).template.size_estimate_gzip,
        old(r).template.size_estimate_brotli == old(t).template.size_estimate_brotli,
        old(r).template.temp_dir == old(t).template.temp_dir,
        old(r).template.body_timeout == old(t).template.body_timeout,
{
}

/// Not limiting the time until the response removes that limit, and nothing else.
pub proof fn law_unset_res_timeout(t: &mut Tuner, r: &mut Tuner)
    requires
        call_ensures(Tuner::unset_res_timeout, (t,), r),
    ensures
        *final(t) == *final(r),
        old(r).template.res_timeout is None,
        old(r).template.max_body_ram == old(t).template.max_body_ram,
        old(r).template.max_body == old(t).template.max_body,
        old(r).template.buffer_size_ram == old(t).template.buffer_size_ram,
        old(r).template.buffer_size_fs == old(t).template.buffer_size_fs,
        old(r).template.size_estimate_deflate == old(t).template.size_estimate_deflate,
        old(r).template.size_estimate_gzip == old(t).template.size_estimate_gzip,
        old(r).template.size_estimate_brotli == old(t).template.size_estimate_brotli,
        old(r).template.temp_dir == old(t).template.temp_dir,
        old(r).template.body_timeout == old(t).template.body_timeout,
{
}

/// Limiting the time until the body is complete sets that limit, and nothing else.
pub proof fn law_set_body_timeout(t: &mut Tuner, r: &mut Tuner, dur: Timeout)
    requires
        call_ensures(Tuner::set_body_timeout, (t, dur), r),
    ensures
        *final(t) == *final(r),
        old(r).template.body_timeout == Some(dur),
        old(r).template.max_body_ram == old(t).template.max_body_ram,
        old(r).template.max_body == old(t).template.max_body,
        old(r).template.buffer_size_ram == old(t).template.buffer_size_ram,
        old(r).template.buffer_size_fs == old(t).template.buffer_size_fs,
        old(r).template.size_estimate_deflate == old(t).template.size_estimate_deflate,
        old(r).template.size_estimate_gzip == old(t).template.size_estimate_gzip,
        old(r).template.size_estimate_brotli == old(t).template.size_estimate_brotli,
        old(r).template.temp_dir == old(t).template.temp_dir,
        old(r).template.res_timeout == old(t).template.res_timeout,
{
}

/// Not limiting the time until the body is complete removes that limit, and nothing else.
pub proof fn law_unset_body_timeout(t: &mut Tuner, r: &mut Tuner)
    requires
        call_ensures(Tuner::unset_body_timeout, (t,), r),
    ensures
        *final(t) == *final(r),
        old(r).template.body_timeout is None,
        old(r).template.max_body_ram == old(t).template.max_body_ram,
        old(r).template.max_body == old(t).template.max_body,
        old(r).template.buffer_size_ram == old(t).template.buffer_size_ram,
        old(r).template.buffer_size_fs == old(t).template.buffer_size_fs,
        old(r).template.size_estimate_deflate == old(t).template.size_estimate_deflate,
        old(r).template.size_estimate_gzip == old(t).template.size_estimate_gzip,
        old(r).template.size_estimate_brotli == old(t).template.size_estimate_brotli,
        old(r).template.temp_dir == old(t).template.temp_dir,
        old(r).template.res_timeout == old(t).template.res_timeout,
{
}

/// Setting the constants for bodies sets these, and nothing else.
pub proof fn law_set_image<S: Copy>(t: &mut FutioTuner<S>, r: &mut FutioTuner<S>, image: Tunables)
    requires
        call_ensures(FutioTuner::<S>::set_image, (t, image), r),
    ensures
        *final(t) == *final(r),
        old(r).template.image == image,
        old(r).template.res_timeout == old(t).template.res_timeout,
        old(r).template.body_timeout == old(t).template.body_timeout,
        old(r).template.blocking_policy == old(t).template.blocking_policy,
        old(r).template.stream_item_size == old(t).template.stream_item_size,
{
}

/// Setting the size of items sets that, and nothing else.
pub proof fn law_set_stream_item_size<S: Copy>(t: &mut FutioTuner<S>, r: &mut FutioTuner<S>, size: usize)
    requires
        call_ensures(FutioTuner::<S>::set_stream_item_size, (t, size), r),
    ensures
        *final(t) == *final(r),
        old(r).template.stream_item_size == size,
        old(r).template.image == old(t).template.image,
        old(r).template.res_timeout == old(t).template.res_timeout,
        old(r).template.body_timeout == old(t).template.body_timeout,
        old(r).template.blocking_policy == old(t).template.blocking_policy,
{
}

/// Setting the policy for blocking operations sets that, and nothing else.
pub proof fn law_set_blocking_policy<S: Copy>(
    t: &mut FutioTuner<S>,
    r: &mut FutioTuner<S>,
    policy: BlockingPolicy<S>,
)
    requires
        call_ensures(FutioTuner::<S>::set_blocking_policy, (t, policy), r),
    ensures
        *final(t) == *final(r),
        old(r).template.blocking_policy == policy,
        old(r).template.image == old(t).template.image,
        old(r).template.res_timeout == old(t).template.res_timeout,
        old(r).template.body_timeout == old(t).template.body_timeout,
        old(r).template.stream_item_size == old(t).template.stream_item_size,
{
}

/// Limiting the time until the response in asynchronous I/O sets that limit, and nothing else.
pub proof fn law_set_futio_res_timeout<S: Copy>(t: &mut FutioTuner<S>, r: &mut FutioTuner<S>, dur: Timeout)
    requires
        call_ensures(FutioTuner::<S>::set_res_timeout, (t, dur), r),
    ensures
        *final(t) == *final(r),
        old(r).template.res_timeout == Some(dur),
        old(r).template.image == old(t).template.image,
        old(r).template.body_timeout == old(t).template.body_timeout,
        old(r).template.blocking_policy == old(t).template.blocking_policy,
        old(r).template.stream_item_size == old(t).template.stream_item_size,
{
}

/// Not limiting the time until the response in asynchronous I/O removes that limit, and nothing else.
pub proof fn law_unset_futio_res_timeout<S: Copy>(t: &mut FutioTuner<S>, r: &mut FutioTuner<S>)
    requires
        call_ensures(FutioTuner::<S>::unset_res_timeout, (t,), r),
    ensures
        *final(t) == *final(r),
        old(r).template.res_timeout is None,
        old(r).template.image == old(t).template.image,
        old(r).template.body_timeout == old(t).template.body_timeout,
        old(r).template.blocking_policy == old(t).template.blocking_policy,
        old(r).template.stream_item_size == old(t).template.stream_item_size,
{
}

/// Limiting the time until the body is complete in asynchronous I/O sets that limit, and nothing else.
pub proof fn law_set_futio_body_timeout<S: Copy>(t: &mut FutioTuner<S>, r: &mut FutioTuner<S>, dur: Timeout)
    requires
        call_ensures(FutioTuner::<S>::set_body_timeout, (t, dur), r),
    ensures
        *final(t) == *final(r),
        old(r).template.body_timeout == Some(dur),
        old(r).template.image == old(t).template.image,
        old(r).template.res_timeout == old(t).template.res_timeout,
        old(r).template.blocking_policy == old(t).template.blocking_policy,
        old(r).template.stream_item_size == old(t).template.stream_item_size,
{
}

/// Not limiting the time until the body is complete in asynchronous I/O removes that limit, and nothing else.
pub proof fn law_unset_futio_body_timeout<S: Copy>(t: &mut FutioTuner<S>, r: &mut FutioTuner<S>)
    requires
        call_ensures(FutioTuner::<S>::unset_body_timeout, (t,), r),
    ensures
        *final(t) == *final(r),
        old(r).template.body_timeout is None,
        old(r).template.image == old(t).template.image,
        old(r).template.res_timeout == old(t).template.res_timeout,
        old(r).template.blocking_policy == old(t).template.blocking_policy,
        old(r).template.stream_item_size == old(t).template.stream_item_size,
{
}

} // verus!

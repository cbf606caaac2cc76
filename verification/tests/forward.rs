use std::io::{Read, Seek, SeekFrom, Write};
use std::sync::Arc;

use body_image::blocking::{Blocking, BlockingArbiter, LenientArbiter, StatefulArbiter};
use body_image::body::{BodyError, BodyImage, BodySink, WriteBack};
use body_image::futio::buf::{InputBuf, MemMapBuf, OutputBuf, Region, UniBodyBuf};
use body_image::futio::sink::{
    AsyncBodySink, DispatchBodySink, DispatchFlush, DispatchedSink, FlushStep, PermitBodySink, PermitFlush,
};
use body_image::futio::stream::{
    AsyncBodyImage, DispatchBodyImage, DispatchPoll, DispatchStep, PermitBodyImage, PermitStep, StreamPoll, WaitPoll,
};
use body_image::futio::uni::{
    unblock, AsyncMemMapBody, AsyncUniBody, Blocked, Delegate, UnblockError, UnblockedPoll, UniBodyImage, UniBodySink, UniFlush, UniStep,
};
use body_image::futio::wrappers::{SinkWrapper, StreamWrapper};
use body_image::futio::FutioError;
use body_image::logger::TestLog;
use body_image::tune::{BlockingPolicy, FutioTunables, FutioTuner, Tunables, Tuner};
use bytes::Bytes;
use memmap::{Mmap, MmapMut};
use olio::mem::MemHandle;
use tempfile::NamedTempFile;

type Handle = Arc<NamedTempFile>;
type MapHandle = MemHandle<Mmap>;
type Image = BodyImage<Handle, MapHandle>;
type UniBuf = UniBodyBuf<MapHandle>;

fn test_logger() -> bool {
    TestLog::new().test_logger(0)
}

fn new_file() -> Handle {
    Arc::new(NamedTempFile::new().unwrap())
}

fn append(file: &Handle, data: &[u8]) {
    let mut f = &**file;
    f.seek(SeekFrom::End(0)).unwrap();
    f.write_all(data).unwrap();
    f.flush().unwrap();
}

fn read_at(file: &Handle, offset: u64, len: usize) -> Bytes {
    let mut f = &**file;
    f.seek(SeekFrom::Start(offset)).unwrap();
    let mut buf = vec![0u8; len];
    let n = f.read(&mut buf).unwrap();
    buf.truncate(n);
    Bytes::from(buf)
}

fn write_buffers(back: &WriteBack) -> Handle {
    let file = new_file();
    for i in 0..back.buffers().count() {
        append(&file, back.buffers().part(i));
    }
    file
}

fn with_fs() -> BodySink<Handle> {
    BodySink::with_fs(new_file())
}

fn fs_body(data: &[u8]) -> (Image, Handle) {
    let file = new_file();
    let mut sink = BodySink::with_fs(file.clone());
    append(&file, data);
    sink.appended(data);
    (sink.prepare(), file)
}

fn new_map(data: &[u8]) -> MapHandle {
    let mut map = MmapMut::map_anon(data.len()).unwrap();
    map.copy_from_slice(data);
    MemHandle::new(map.make_read_only().unwrap())
}

fn map_body(data: &[u8]) -> (Image, Handle) {
    let (mut body, file) = fs_body(data);
    let content = body.mem_map().map(|r| read_at(r.file, r.offset, r.len as usize)).unwrap();
    body.mapped(new_map(&content));
    (body, file)
}

/// A stream of items, and the file that it reads.
trait Source<B>: StreamWrapper<Handle, MapHandle, ()> {
    fn next(&mut self, file: &Handle) -> Option<B>;
}

fn next_of<B: OutputBuf<MapHandle>, BA: BlockingArbiter>(
    s: &mut AsyncBodyImage<Handle, MapHandle, (), BA>,
    file: &Handle,
) -> Option<B> {
    match s.poll_impl() {
        StreamPoll::End => None,
        StreamPoll::Pending => panic!("pending"),
        StreamPoll::Item(b) => Some(b),
        StreamPoll::Read(r) => match s.read_done(Some(read_at(file, r.offset, r.len))) {
            StreamPoll::End => None,
            StreamPoll::Item(b) => Some(b),
            _ => panic!("unexpected"),
        },
        StreamPoll::Advise(m) => Some(s.mapped(m)),
    }
}

impl<B: OutputBuf<MapHandle>> Source<B> for AsyncBodyImage<Handle, MapHandle, (), LenientArbiter> {
    fn next(&mut self, file: &Handle) -> Option<B> {
        next_of(self, file)
    }
}

impl<B: OutputBuf<MapHandle>> Source<B> for PermitBodyImage<Handle, MapHandle, ()> {
    fn next(&mut self, file: &Handle) -> Option<B> {
        let mut step = self.poll_next();
        loop {
            match step {
                PermitStep::Ask(()) => {
                    assert!(self.is_waiting());
                    // Not at once
                    let wait: PermitStep<B, MapHandle, ()> = self.permit_polled(WaitPoll::Pending);
                    assert!(matches!(wait, PermitStep::Poll(StreamPoll::Pending)));
                    step = self.permit_polled(WaitPoll::Ready);
                }
                PermitStep::Canceled => panic!("canceled"),
                PermitStep::Poll(StreamPoll::End) => return None,
                PermitStep::Poll(StreamPoll::Pending) => panic!("pending"),
                PermitStep::Poll(StreamPoll::Item(b)) => return Some(b),
                PermitStep::Poll(StreamPoll::Read(r)) => {
                    assert!(!self.is_waiting());
                    step = PermitStep::Poll(self.read_done(Some(read_at(file, r.offset, r.len))));
                }
                PermitStep::Poll(StreamPoll::Advise(m)) => return Some(self.mapped(m)),
            }
        }
    }
}

impl<B: OutputBuf<MapHandle>> Source<B> for DispatchBodyImage<Handle, MapHandle, ()> {
    fn next(&mut self, file: &Handle) -> Option<B> {
        match self.poll_next() {
            DispatchStep::Canceled => panic!("canceled"),
            DispatchStep::Poll(StreamPoll::End) => None,
            DispatchStep::Poll(StreamPoll::Item(b)) => Some(b),
            DispatchStep::Poll(_) => panic!("unexpected"),
            DispatchStep::Dispatch(mut image) => {
                assert!(self.is_dispatched() && !self.is_end_stream());
                let wait: Option<DispatchStep<B, Handle, MapHandle, ()>> = self.dispatch_polled(DispatchPoll::Pending);
                assert!(matches!(wait, Some(DispatchStep::Poll(StreamPoll::Pending))));
                let item = next_of(&mut image, file);
                let done: Option<DispatchStep<B, Handle, MapHandle, ()>> = self.dispatch_polled(DispatchPoll::Ready(image));
                assert!(done.is_none());
                item
            }
        }
    }
}

impl<B: OutputBuf<MapHandle>> Source<B> for UniBodyImage<Handle, MapHandle, ()> {
    fn next(&mut self, file: &Handle) -> Option<B> {
        // By the pool, every other time
        let has_pool = self.size_hint() % 2 == 0;
        let mut step = self.poll_next(has_pool);
        let mut interrupted = false;
        loop {
            step = match step {
                UniStep::Canceled => panic!("canceled"),
                UniStep::Again => self.poll_next(false),
                UniStep::Ask(()) => {
                    assert_eq!(self.delegate(), Delegate::Permit);
                    self.permit_polled(WaitPoll::Ready)
                }
                UniStep::Dispatch(mut image) => {
                    assert_eq!(self.delegate(), Delegate::Dispatch);
                    let item = next_of(&mut image, file);
                    let done: Option<UniStep<B, Handle, MapHandle, ()>> =
                        self.dispatch_polled(WaitPoll::Ready, Some(image));
                    assert!(done.is_none());
                    return item;
                }
                UniStep::Poll(StreamPoll::End) => return None,
                UniStep::Poll(StreamPoll::Pending) => panic!("pending"),
                UniStep::Poll(StreamPoll::Item(b)) => return Some(b),
                UniStep::Poll(StreamPoll::Read(r)) => {
                    if interrupted {
                        self.read_done(Some(read_at(file, r.offset, r.len)))
                    } else {
                        interrupted = true;
                        self.read_done(None)
                    }
                }
                UniStep::Poll(StreamPoll::Advise(m)) => return self.mapped(m),
            };
        }
    }
}

/// A sink of items.
trait Outlet<B: InputBuf>: SinkWrapper<B, Handle, ()> {
    fn put(&mut self, item: B) -> Result<(), FutioError>;
}

fn flush_of<B: InputBuf, BA: BlockingArbiter>(s: &mut AsyncBodySink<B, Handle, (), BA>) -> Result<(), FutioError> {
    match s.poll_flush_impl() {
        FlushStep::Ready => Ok(()),
        FlushStep::Failed(e) => Err(e),
        FlushStep::Pending => panic!("pending"),
        FlushStep::Open(back, b) => {
            s.opened_with(back);
            append(s.file().unwrap(), b.chunk());
            s.written(&b);
            Ok(())
        }
        FlushStep::Append(b) => {
            append(s.file().unwrap(), b.chunk());
            s.written(&b);
            Ok(())
        }
    }
}

trait Opened {
    fn opened_with(&mut self, back: WriteBack);
}

impl<B: InputBuf, BA: BlockingArbiter> Opened for AsyncBodySink<B, Handle, (), BA> {
    fn opened_with(&mut self, back: WriteBack) {
        let file = write_buffers(&back);
        self.opened(back, file);
    }
}

impl<B: InputBuf> Outlet<B> for AsyncBodySink<B, Handle, (), LenientArbiter> {
    fn put(&mut self, item: B) -> Result<(), FutioError> {
        self.send(item);
        flush_of(self)
    }
}

impl<B: InputBuf> Outlet<B> for PermitBodySink<B, Handle, ()> {
    fn put(&mut self, item: B) -> Result<(), FutioError> {
        self.start_send(item);
        let mut step = self.poll_flush();
        if let PermitFlush::Ask(()) = step {
            assert!(self.is_waiting());
            assert!(matches!(self.permit_polled(WaitPoll::Pending), PermitFlush::Flush(FlushStep::Pending)));
            assert!(matches!(self.permit_polled(WaitPoll::Canceled), PermitFlush::Canceled));
            step = self.permit_polled(WaitPoll::Ready);
        }
        assert!(!self.is_waiting());
        match step {
            PermitFlush::Flush(FlushStep::Ready) => Ok(()),
            PermitFlush::Flush(FlushStep::Failed(e)) => Err(e),
            PermitFlush::Flush(FlushStep::Open(back, b)) => {
                let file = write_buffers(&back);
                self.opened(back, file);
                append(self.file().unwrap(), b.chunk());
                self.written(&b);
                Ok(())
            }
            PermitFlush::Flush(FlushStep::Append(b)) => {
                append(self.file().unwrap(), b.chunk());
                self.written(&b);
                Ok(())
            }
            _ => panic!("unexpected"),
        }
    }
}

impl<B: InputBuf> Outlet<B> for DispatchBodySink<B, Handle, ()> {
    fn put(&mut self, item: B) -> Result<(), FutioError> {
        self.start_send(item);
        match self.poll_flush() {
            DispatchFlush::Flush(FlushStep::Ready) => Ok(()),
            DispatchFlush::Flush(FlushStep::Failed(e)) => Err(e),
            DispatchFlush::Dispatch(mut sink) => {
                assert!(self.is_dispatched());
                assert!(self.dispatch_polled(DispatchedSink::Pending).is_some());
                let r = flush_of(&mut sink);
                assert!(self.dispatch_polled(DispatchedSink::Ready(sink)).is_none());
                r
            }
            _ => panic!("unexpected"),
        }
    }
}

impl<B: InputBuf> Outlet<B> for UniBodySink<B, Handle, ()> {
    fn put(&mut self, item: B) -> Result<(), FutioError> {
        // On a reactor thread for short items
        let reactor = item.remaining() < 1000;
        self.start_send(item);
        let mut step = self.poll_send(reactor);
        if let UniFlush::Ask = step {
            assert_eq!(self.delegate(), Delegate::Permit);
            step = self.permit_polled(WaitPoll::Ready);
        }
        match step {
            UniFlush::Flush(FlushStep::Ready) => Ok(()),
            UniFlush::Flush(FlushStep::Failed(e)) => Err(e),
            UniFlush::Flush(FlushStep::Open(back, b)) => {
                let file = write_buffers(&back);
                self.opened(back, file);
                append(self.file().unwrap(), b.chunk());
                self.written(&b);
                Ok(())
            }
            UniFlush::Flush(FlushStep::Append(b)) => {
                append(self.file().unwrap(), b.chunk());
                self.written(&b);
                Ok(())
            }
            UniFlush::Dispatch(mut sink) => {
                assert_eq!(self.delegate(), Delegate::Dispatch);
                assert!(self.dispatch_polled(WaitPoll::Pending, None).is_some());
                let r = flush_of(&mut sink);
                assert!(self.dispatch_polled(WaitPoll::Ready, Some(sink)).is_none());
                r
            }
            _ => panic!("unexpected"),
        }
    }
}

/// Forward all of a stream to a sink.
fn forward<St, Sk, B>(body: Image, file: &Handle, sink: BodySink<Handle>, tune: FutioTunables<()>) -> Result<BodySink<Handle>, FutioError>
where
    St: Source<B>,
    Sk: Outlet<B>,
    B: OutputBuf<MapHandle> + InputBuf,
{
    let mut body = St::wrap(body, tune.clone());
    let mut asink = Sk::wrap(sink, tune);
    while let Some(item) = body.next(file) {
        asink.put(item)?;
    }
    Ok(asink.unwrap_sink().unwrap())
}

fn content(sink: BodySink<Handle>) -> Vec<u8> {
    let len = sink.len() as usize;
    let image: Image = sink.prepare();
    let mut out = Vec::new();
    if image.write_to(&mut out).is_none() {
        let file = image.mem_map().unwrap();
        out = read_at(file.file, file.offset, len).to_vec();
    }
    out
}

fn permit_tune(image: Tunables) -> FutioTunables<()> {
    FutioTuner::new().set_image(image).set_blocking_policy(BlockingPolicy::Permit(())).finish()
}

fn empty_task<St: Source<B>, Sk: Outlet<B>, B: OutputBuf<MapHandle> + InputBuf>() -> Result<(), FutioError> {
    let tune = permit_tune(Tunables::new());
    let bsink =
        forward::<St, Sk, B>(BodyImage::empty(), &new_file(), BodySink::with_ram_buffers(0), tune)?;
    assert!(bsink.is_ram());
    assert!(bsink.is_empty());
    Ok(())
}

fn small_task<St: Source<B>, Sk: Outlet<B>, B: OutputBuf<MapHandle> + InputBuf>() -> Result<(), FutioError> {
    let tune = permit_tune(Tunables::new());
    let body = BodyImage::from_slice(Bytes::from_static(b"body"));
    let bsink = forward::<St, Sk, B>(body, &new_file(), BodySink::with_ram_buffers(1), tune)?;
    assert!(bsink.is_ram());
    assert_eq!(bsink.len(), 4);
    assert_eq!(content(bsink), b"body");
    Ok(())
}

fn fs_task<St: Source<B>, Sk: Outlet<B>, B: OutputBuf<MapHandle> + InputBuf>() -> Result<(), FutioError> {
    let tune = permit_tune(Tuner::new().set_buffer_size_fs(173).finish());
    let (body, file) = fs_body(&vec![1; 24_000]);
    let bsink = forward::<St, Sk, B>(body, &file, with_fs(), tune)?;
    assert!(!bsink.is_ram());
    assert_eq!(bsink.len(), 24_000);
    assert_eq!(content(bsink), vec![1; 24_000]);
    Ok(())
}

fn fs_back_tune() -> FutioTunables<()> {
    permit_tune(Tuner::new().set_buffer_size_fs(173).set_max_body_ram(15_000).finish())
}

fn fs_back_task<St: Source<B>, Sk: Outlet<B>, B: OutputBuf<MapHandle> + InputBuf>() -> Result<(), FutioError> {
    let (body, file) = fs_body(&vec![1; 24_000]);
    let bsink = forward::<St, Sk, B>(body, &file, BodySink::with_ram_buffers(4), fs_back_tune())?;
    assert!(!bsink.is_ram());
    assert_eq!(bsink.len(), 24_000);
    assert_eq!(content(bsink), vec![1; 24_000]);
    Ok(())
}

fn fs_map_task<St: Source<B>, Sk: Outlet<B>, B: OutputBuf<MapHandle> + InputBuf>() -> Result<(), FutioError> {
    let (body, file) = map_body(&vec![1; 24_000]);
    assert!(!body.is_ram());
    let bsink = forward::<St, Sk, B>(body, &file, BodySink::with_ram_buffers(4), fs_back_tune())?;
    assert!(!bsink.is_ram());
    assert_eq!(bsink.len(), 24_000);
    assert_eq!(content(bsink), vec![1; 24_000]);
    Ok(())
}

type AsyncImage = AsyncBodyImage<Handle, MapHandle, (), LenientArbiter>;
type AsyncSink<B> = AsyncBodySink<B, Handle, (), LenientArbiter>;
type PermitImage = PermitBodyImage<Handle, MapHandle, ()>;
type PermitSink<B> = PermitBodySink<B, Handle, ()>;
type DispatchImage = DispatchBodyImage<Handle, MapHandle, ()>;
type DispatchSink<B> = DispatchBodySink<B, Handle, ()>;
type UniImage = UniBodyImage<Handle, MapHandle, ()>;
type UniSink<B> = UniBodySink<B, Handle, ()>;

#[test]
fn transfer_empty_ct() {
    assert!(test_logger());
    empty_task::<DispatchImage, DispatchSink<_>, Bytes>().expect("task success");
}

#[test]
fn transfer_empty_th() {
    assert!(test_logger());
    empty_task::<AsyncImage, AsyncSink<_>, Bytes>().expect("task success");
}

#[test]
fn transfer_small_ct() {
    assert!(test_logger());
    small_task::<DispatchImage, DispatchSink<_>, Bytes>().expect("task success");
}

#[test]
fn transfer_small_th() {
    assert!(test_logger());
    small_task::<AsyncImage, AsyncSink<_>, Bytes>().expect("task success");
}

#[test]
fn transfer_fs_ct() {
    assert!(test_logger());
    fs_task::<DispatchImage, DispatchSink<_>, Bytes>().expect("task success");
}

#[test]
fn transfer_fs_th() {
    assert!(test_logger());
    fs_task::<AsyncImage, AsyncSink<_>, Bytes>().expect("task success");
}

#[test]
fn transfer_fs_th_permit() {
    assert!(test_logger());
    fs_task::<PermitImage, PermitSink<_>, Bytes>().expect("task success");
}

#[test]
fn transfer_fs_back_ct() {
    assert!(test_logger());
    fs_back_task::<DispatchImage, DispatchSink<_>, Bytes>().expect("task success");
}

#[test]
fn transfer_fs_back_th() {
    assert!(test_logger());
    fs_back_task::<AsyncImage, AsyncSink<_>, Bytes>().expect("task success");
}

#[test]
fn transfer_fs_back_th_permit() {
    assert!(test_logger());
    fs_back_task::<PermitImage, PermitSink<_>, Bytes>().expect("task success");
}

#[test]
fn transfer_fs_back_th_multi() {
    assert!(test_logger());
    let count = (0..20).filter(|_| fs_back_task::<PermitImage, PermitSink<_>, Bytes>().is_ok()).count();
    assert_eq!(20, count);
}

#[test]
fn transfer_fs_map_ct() {
    assert!(test_logger());
    fs_map_task::<DispatchImage, DispatchSink<_>, UniBuf>().expect("task success");
}

#[test]
fn transfer_fs_map_th() {
    assert!(test_logger());
    fs_map_task::<AsyncImage, AsyncSink<_>, UniBuf>().expect("task success");
}

#[test]
fn transfer_fs_map_th_permit() {
    assert!(test_logger());
    fs_map_task::<PermitImage, PermitSink<_>, UniBuf>().expect("task success");
}

#[test]
fn futures_forward_to_sink_empty() {
    assert!(test_logger());
    empty_task::<UniImage, UniSink<_>, UniBuf>().expect("task success");
}

#[test]
fn futures_03_forward_to_sink_empty() {
    assert!(test_logger());
    empty_task::<AsyncImage, AsyncSink<_>, Bytes>().expect("task success");
}

#[test]
fn futures_forward_to_sink_small() {
    assert!(test_logger());
    small_task::<UniImage, UniSink<_>, UniBuf>().expect("task success");
}

#[test]
fn futures_03_forward_to_sink_small() {
    assert!(test_logger());
    small_task::<AsyncImage, AsyncSink<_>, Bytes>().expect("task success");
}

#[test]
fn futures_forward_to_sink_fs() {
    assert!(test_logger());
    fs_task::<UniImage, UniSink<_>, UniBuf>().expect("task success");
}

#[test]
fn futures_03_forward_to_sink_fs() {
    assert!(test_logger());
    fs_task::<AsyncImage, AsyncSink<_>, Bytes>().expect("task success");
}

#[test]
fn futures_forward_to_sink_fs_back() {
    assert!(test_logger());
    fs_back_task::<UniImage, UniSink<_>, UniBuf>().expect("task success");
}

#[test]
fn futures_03_forward_to_sink_fs_back() {
    assert!(test_logger());
    fs_back_task::<AsyncImage, AsyncSink<_>, Bytes>().expect("task success");
}

#[test]
fn futures_forward_to_sink_fs_map() {
    assert!(test_logger());
    fs_map_task::<UniImage, UniSink<_>, UniBuf>().expect("task success");
}

#[test]
fn futures_03_forward_to_sink_fs_map() {
    assert!(test_logger());
    fs_map_task::<AsyncImage, AsyncSink<_>, Bytes>().expect("task success");
}

#[test]
fn forward_03_to_sink_empty() {
    assert!(test_logger());
    empty_task::<UniImage, UniSink<_>, UniBuf>().expect("task success");
}

#[test]
fn forward_03_to_sink_fs() {
    assert!(test_logger());
    fs_task::<UniImage, UniSink<_>, UniBuf>().expect("task success");
}

fn is_send<T: Send>() -> bool { true }
fn is_sync<T: Sync>() -> bool { true }

#[test]
fn stream_test_send_sync() {
    assert!(is_send::<AsyncImage>());
    assert!(is_sync::<AsyncImage>());

    assert!(is_send::<DispatchImage>());
    assert!(is_sync::<DispatchImage>());

    assert!(is_send::<PermitImage>());
    assert!(is_sync::<PermitImage>());
}

#[test]
fn omni_image_test_send_sync() {
    type Omni = body_image::futio::stream::OmniBodyImage<Handle, MapHandle, ()>;
    assert!(is_send::<Omni>());
    assert!(is_sync::<Omni>());

    assert!(is_send::<DispatchImage>());
    assert!(is_sync::<DispatchImage>());

    assert!(is_send::<PermitImage>());
    assert!(is_sync::<PermitImage>());
}

#[test]
fn items_are_the_buffers() {
    let mut sink: BodySink<Handle> = BodySink::with_ram_buffers(3);
    for part in ["ab", "cde", "f"] {
        sink.write_all(part.as_bytes());
    }
    let mut s: AsyncImage = AsyncBodyImage::new(sink.prepare(), FutioTunables::new());
    assert_eq!(s.size_hint(), 6);
    assert!(s.is_ram());
    let file = new_file();
    for part in ["ab", "cde", "f"] {
        assert!(!s.is_end_stream());
        let b: Bytes = next_of(&mut s, &file).unwrap();
        assert_eq!(b, part);
    }
    assert!(s.is_end_stream());
    assert!(next_of::<Bytes, _>(&mut s, &file).is_none());
}

#[test]
fn file_is_read_in_pieces() {
    let (body, file) = fs_body(b"0123456789");
    let tune = permit_tune(Tuner::new().set_buffer_size_fs(4).finish());
    let mut s: AsyncImage = AsyncBodyImage::new(body, tune);
    assert_eq!(s.blocking_semaphore(), Some(()));
    let mut sizes = Vec::new();
    match s.poll_impl::<Bytes>() {
        StreamPoll::Read(r) => {
            assert_eq!((r.offset, r.len), (0, 4));
            // Interrupted: the same again
            match s.read_done::<Bytes>(None) {
                StreamPoll::Read(r) => assert_eq!((r.offset, r.len), (0, 4)),
                _ => panic!("not read"),
            }
            // Less than asked for
            match s.read_done::<Bytes>(Some(read_at(&file, 0, 1))) {
                StreamPoll::Item(b) => assert_eq!(b, "0"),
                _ => panic!("no item"),
            }
        }
        _ => panic!("not read"),
    }
    while let Some(b) = next_of::<Bytes, _>(&mut s, &file) {
        sizes.push(b.len());
    }
    assert_eq!(sizes, vec![4, 4, 1]);
    assert!(s.is_end_stream());
}

#[test]
fn file_that_is_too_short_ends() {
    let file = new_file();
    append(&file, b"012");
    let body: Image = BodyImage::from_file(file.clone(), 5);
    let mut s: AsyncImage = AsyncBodyImage::new(body, FutioTunables::new());
    assert_eq!(next_of::<Bytes, _>(&mut s, &file).unwrap(), "012");
    assert!(next_of::<Bytes, _>(&mut s, &file).is_none());
    assert!(!s.is_end_stream());
}

#[test]
fn blocking_is_asked_for() {
    let (body, _file) = fs_body(b"0123456789");
    let arbiter = StatefulArbiter { state: Blocking::Void };
    let mut s = AsyncBodyImage::with_arbiter(body, FutioTunables::<()>::new(), arbiter);
    assert!(matches!(s.poll_impl::<Bytes>(), StreamPoll::Pending));
    assert!(matches!(s.poll_impl::<Bytes>(), StreamPoll::Pending));

    let mut arbiter = StatefulArbiter::default();
    assert!(!arbiter.can_block());
    assert_eq!(arbiter.state(), Blocking::Pending);
    arbiter.set(Blocking::Once);
    assert!(arbiter.can_block());
    assert_eq!(arbiter.state(), Blocking::Void);
    arbiter.set(Blocking::Always);
    assert!(arbiter.can_block() && arbiter.can_block());
    assert!(LenientArbiter.can_block());
    assert_eq!(LenientArbiter.state(), Blocking::Always);
}

#[test]
fn map_without_advice_is_lost() {
    let (body, file) = map_body(b"0123456789");
    let mut s: AsyncImage = AsyncBodyImage::new(body, FutioTunables::new());
    assert!(matches!(s.poll_impl::<UniBuf>(), StreamPoll::Advise(_)));
    // The advice failed: there is no item
    assert!(next_of::<UniBuf, _>(&mut s, &file).is_none());
}

#[test]
fn permits_that_are_canceled() {
    let (body, _file) = fs_body(b"0123456789");
    let mut s: PermitImage = PermitBodyImage::new(body, permit_tune(Tunables::new()));
    assert!(matches!(s.poll_next::<Bytes>(), PermitStep::Ask(())));
    assert!(matches!(s.permit_polled::<Bytes>(WaitPoll::Canceled), PermitStep::Canceled));
    assert!(s.is_waiting() && !s.is_end_stream());
    assert_eq!(s.size_hint(), 10);
    let (body, _file) = fs_body(b"0123456789");
    let mut s: DispatchImage = DispatchBodyImage::new(body, FutioTunables::new());
    assert!(matches!(s.poll_next::<Bytes>(), DispatchStep::Dispatch(_)));
    assert!(matches!(s.dispatch_polled::<Bytes>(DispatchPoll::Canceled), Some(DispatchStep::Canceled)));
    assert_eq!(s.size_hint(), 10);
}

#[test]
fn sinks_have_limits() {
    let tune: FutioTunables<()> =
        FutioTuner::new().set_image(Tuner::new().set_max_body_ram(4).set_max_body(6).finish()).finish();
    let mut s: AsyncSink<Bytes> = AsyncBodySink::new(BodySink::empty(), tune.clone());
    s.put(Bytes::from_static(b"")).unwrap();
    s.put(Bytes::from_static(b"0123")).unwrap();
    assert!(s.file().is_none());
    s.put(Bytes::from_static(b"45")).unwrap();
    assert!(s.file().is_some());
    match s.put(Bytes::from_static(b"6")) {
        Err(FutioError::Body(BodyError::BodyTooLong(l))) => assert_eq!(l, 7),
        _ => panic!("should be too long"),
    }
    let sink = s.into_inner();
    assert_eq!(sink.len(), 6);
    assert_eq!(content(sink), b"012345");

    let arbiter = StatefulArbiter::default();
    let mut s: AsyncBodySink<Bytes, Handle, (), _> = AsyncBodySink::with_arbiter(with_fs(), tune, arbiter);
    assert!(matches!(s.poll_send(Bytes::from_static(b"ab")), FlushStep::Pending));
    s.permit_once();
    assert!(matches!(s.poll_flush_impl(), FlushStep::Append(_)));
    assert!(matches!(s.poll_flush_impl(), FlushStep::Ready));
}

#[test]
fn buffers_of_any_kind() {
    let mut m = MemMapBuf::new(Bytes::from_static(b"0123456789"));
    assert_eq!(m.remaining(), 10);
    m.advance(2);
    let first = m.split_to(3);
    assert_eq!((first.chunk(), m.chunk()), (&b"234"[..], &b"56789"[..]));
    let mut u = UniBodyBuf::from_mmap(m);
    assert!(u.split_if(5).is_none());
    let part = u.split_if(2).unwrap();
    assert_eq!((part.chunk(), u.chunk()), (&b"56"[..], &b"789"[..]));
    u.advance(1);
    assert_eq!(u.into_bytes(), "89");

    let mut u: UniBuf = UniBodyBuf::from_bytes(Bytes::from_static(b"abcdef"));
    let mut pieces = Vec::new();
    while let Some(p) = u.split_if(4) {
        pieces.push(p.into_bytes());
    }
    assert_eq!(pieces, vec![Bytes::from_static(b"abcd")]);
    u.advance(1);
    assert_eq!((u.remaining(), u.chunk()), (1, &b"f"[..]));
    assert_eq!(UniBuf::empty().remaining(), 0);
    let v = MemMapBuf::new(vec![1u8, 2, 3]);
    assert_eq!(v.chunk(), &[1, 2, 3]);
}

#[test]
fn backup_threads() {
    assert_eq!(unblock::<u8, ()>(Blocked::Done(1)).ok(), Some(Some(1)));
    assert_eq!(unblock::<u8, ()>(Blocked::Interrupted).ok(), Some(None));
    assert_eq!(unblock::<u8, ()>(Blocked::NotReady).ok(), Some(None));
    assert!(matches!(unblock::<u8, u8>(Blocked::Failed(3)), Err(UnblockError::Failed(3))));
    assert!(matches!(unblock::<u8, u8>(Blocked::Unsupported), Err(UnblockError::Unsupported)));

    let (body, file) = fs_body(b"0123");
    let mut s: AsyncUniBody<Handle, MapHandle, ()> = AsyncUniBody::new(body, FutioTunables::new());
    assert_eq!(s.content_length(), 4);
    assert!(matches!(s.poll::<UniBuf>(), StreamPoll::Read(_)));
    let r: UnblockedPoll<UniBuf, MapHandle, ()> = s.read_blocked(Blocked::NotReady);
    assert!(matches!(r, UnblockedPoll::Poll(StreamPoll::Pending)));
    assert!(matches!(s.poll::<UniBuf>(), StreamPoll::Read(_)));
    let r: UnblockedPoll<UniBuf, MapHandle, ()> = s.read_blocked(Blocked::Done(read_at(&file, 0, 4)));
    match r {
        UnblockedPoll::Poll(StreamPoll::Item(b)) => assert_eq!(b.chunk(), b"0123"),
        _ => panic!("no item"),
    }
    assert!(s.is_end_stream());
    assert!(matches!(s.poll::<UniBuf>(), StreamPoll::End));

    let (body, _file) = map_body(b"0123");
    let mut s: AsyncUniBody<Handle, MapHandle, ()> = AsyncUniBody::new(body, FutioTunables::new());
    match s.poll::<UniBuf>() {
        StreamPoll::Advise(m) => {
            let r: UnblockedPoll<UniBuf, MapHandle, ()> = s.map_blocked(m, Blocked::NotReady);
            match r {
                UnblockedPoll::Poll(StreamPoll::Item(b)) => assert_eq!(b.chunk(), b"0123"),
                _ => panic!("no item"),
            }
        }
        _ => panic!("no map"),
    }
}

#[test]
fn a_map_is_given_once() {
    let (body, _file) = map_body(b"0123");
    let mut s = AsyncMemMapBody::new(body);
    assert_eq!(s.content_length(), Some(4));
    assert!(!s.is_end_stream());
    assert_eq!(s.poll_data().unwrap().chunk(), b"0123");
    assert_eq!(s.content_length(), None);
    assert!(s.is_end_stream());
    assert!(s.poll_data().is_none());

    let mut s: AsyncMemMapBody<MapHandle> = AsyncMemMapBody::empty();
    assert!(s.is_end_stream() && s.content_length().is_none() && s.poll_data().is_none());
}

#[test]
fn all_items_are_the_body() {
    // One item for each buffer in RAM
    let mut sink = BodySink::with_ram_buffers(3);
    for part in [&b"ab"[..], b"c", b"def"] {
        sink.save(Bytes::copy_from_slice(part));
    }
    let mut s: AsyncBodyImage<Handle, MapHandle, (), LenientArbiter> =
        AsyncBodyImage::new(sink.prepare(), FutioTunables::new());
    for part in [&b"ab"[..], b"c", b"def"] {
        assert!(!s.is_end_stream());
        match s.poll_impl::<Bytes>() {
            StreamPoll::Item(b) => assert_eq!(b, part),
            _ => panic!("no item"),
        }
    }
    assert!(s.is_end_stream());
    assert!(matches!(s.poll_impl::<Bytes>(), StreamPoll::End));
    assert!(matches!(s.poll_impl::<Bytes>(), StreamPoll::End));

    // Short reads of a file
    let (body, file) = fs_body(b"0123456789");
    let tune = FutioTuner::new().set_image(Tuner::new().set_buffer_size_fs(4).finish()).finish();
    let mut s: AsyncBodyImage<Handle, MapHandle, (), LenientArbiter> = AsyncBodyImage::new(body, tune);
    let mut got = Vec::new();
    for len in [4, 1, 4, 1] {
        match s.poll_impl::<Bytes>() {
            StreamPoll::Read(r) => {
                assert!(len <= r.len && r.len <= 4);
                match s.read_done::<Bytes>(Some(read_at(&file, r.offset, len))) {
                    StreamPoll::Item(b) => got.extend_from_slice(&b),
                    _ => panic!("no item"),
                }
            }
            _ => panic!("no read"),
        }
    }
    assert_eq!(got, b"0123456789");
    assert!(s.is_end_stream());
    assert!(matches!(s.poll_impl::<Bytes>(), StreamPoll::End));
}

#[test]
fn nothing_left_needs_no_permit() {
    // Without a pool or a policy of permits a stream that is done just ends
    let (body, _file) = map_body(b"0123");
    let mut s: UniBodyImage<Handle, MapHandle, ()> = UniBodyImage::new(body, FutioTunables::new());
    match s.poll_next::<UniBuf>(true) {
        UniStep::Dispatch(mut image) => {
            match image.poll_impl::<UniBuf>() {
                StreamPoll::Advise(m) => assert_eq!(image.mapped::<UniBuf>(m).chunk(), b"0123"),
                _ => panic!("no map"),
            }
            assert!(s.dispatch_polled::<UniBuf>(WaitPoll::Ready, Some(image)).is_none());
        }
        _ => panic!("not dispatched"),
    }
    assert!(matches!(s.poll_next::<UniBuf>(false), UniStep::Poll(StreamPoll::End)));
}

#[test]
fn permits_are_asked_for_each_time() {
    let (body, file) = fs_body(b"01234567");
    let tune = permit_tune(Tuner::new().set_buffer_size_fs(4).finish());
    let mut s: UniImage = UniBodyImage::new(body, tune);
    for item in ["0123", "4567"] {
        assert!(matches!(s.poll_next::<UniBuf>(false), UniStep::Ask(())));
        match s.permit_polled::<UniBuf>(WaitPoll::Ready) {
            UniStep::Poll(StreamPoll::Read(r)) => match s.read_done::<UniBuf>(Some(read_at(&file, r.offset, r.len))) {
                UniStep::Poll(StreamPoll::Item(b)) => assert_eq!(b.chunk(), item.as_bytes()),
                _ => panic!("no item"),
            },
            _ => panic!("not read"),
        }
    }
    assert!(matches!(s.poll_next::<UniBuf>(true), UniStep::Poll(StreamPoll::End)));
}

#[test]
fn permits_for_what_goes_to_a_file() {
    let tune = permit_tune(Tuner::new().set_max_body_ram(4).finish());
    let mut s: PermitBodySink<Bytes, Handle, ()> = PermitBodySink::new(BodySink::empty(), tune);
    assert!(!s.needs_permit());
    s.start_send(Bytes::from_static(b"0123"));
    assert!(!s.needs_permit());
    assert!(matches!(s.poll_flush(), PermitFlush::Flush(FlushStep::Ready)));
    s.start_send(Bytes::from_static(b"4"));
    assert!(s.needs_permit());
    assert!(matches!(s.poll_flush(), PermitFlush::Ask(())));
}

#[test]
fn the_body_of_a_sink() {
    let mut s: AsyncBodySink<Bytes, Handle, (), LenientArbiter> =
        AsyncBodySink::new(BodySink::with_ram_buffers(1), FutioTunables::new());
    s.send(Bytes::from_static(b"abc"));
    assert!(matches!(s.poll_flush_impl(), FlushStep::Ready));
    assert_eq!(s.body().len(), 3);
    s.body_mut().save(Bytes::from_static(b"d"));
    assert_eq!(s.body().len(), 4);
    assert_eq!(content(s.into_inner()), b"abcd");
}

#[test]
fn regions_are_shared() {
    let map = new_map(b"12345");
    let other = map.share();
    assert_eq!((map.region(), other.region()), (&b"12345"[..], &b"12345"[..]));
    let mut m = MemMapBuf::new(map);
    let first = m.split_to(2);
    assert_eq!((first.chunk(), m.chunk()), (&b"12"[..], &b"345"[..]));
    let b: Bytes = OutputBuf::from_mmap(other);
    assert_eq!(b, "12345");
    let v = vec![1u8, 2];
    assert_eq!(v.share().region(), &[1, 2]);
}

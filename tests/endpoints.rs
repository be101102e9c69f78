use crossbeam_utils::thread::scope;
use pipe::{
    next_step, pipe, pipe_buffered, pipe_buffered_with_capacity, PipeBufWriter, PipeError, PipeReader,
    PipeWriter, ReadStep, DEFAULT_BUF_SIZE,
};

fn write_all(w: &PipeWriter, mut data: &[u8]) -> Result<(), PipeError> {
    while !data.is_empty() {
        let n = w.write(data)?;
        data = &data[n..];
    }
    Ok(())
}

fn write_all_buffered(w: &mut PipeBufWriter, mut data: &[u8]) -> Result<(), PipeError> {
    while !data.is_empty() {
        let n = w.write(data)?;
        assert!(n > 0);
        data = &data[n..];
    }
    Ok(())
}

fn read_to_end(r: &mut PipeReader, chunk: usize) -> Vec<u8> {
    let mut out = Vec::new();
    let mut buf = vec![0u8; chunk];
    loop {
        match r.read(&mut buf) {
            Ok(0) => return out,
            Ok(n) => out.extend_from_slice(&buf[..n]),
            Err(PipeError::Interrupted) => continue,
            Err(e) => panic!("read failed: {:?}", e),
        }
    }
}

#[test]
fn pipe_reader() {
    let i = b"hello there";
    let (mut r, w) = pipe();
    let o = scope(|s| {
        s.spawn(move |_| {
            write_all(&w, &i[..5]).unwrap();
            write_all(&w, &i[5..]).unwrap();
            drop(w);
        });
        read_to_end(&mut r, 64)
    })
    .unwrap();
    assert_eq!(i, &o[..]);
}

#[test]
fn pipe_writer_fail() {
    let i = b"hi";
    let (r, w) = pipe();
    scope(|s| {
        s.spawn(move |_| {
            drop(r);
        });
    })
    .unwrap();
    assert!(write_all(&w, i).is_err());
}

#[test]
fn small_reads() {
    let block_cnt = 20;
    const BLOCK: usize = 20;
    let (mut r, w) = pipe();
    let read = scope(|s| {
        s.spawn(move |_| {
            for _ in 0..block_cnt {
                let data = &[0; BLOCK];
                write_all(&w, data).unwrap();
            }
        });
        let mut buff = [0; BLOCK / 2];
        let mut read = 0;
        while let Ok(size) = r.read(&mut buff) {
            // 0 means end of stream
            if size == 0 {
                break;
            }
            read += size;
        }
        read
    })
    .unwrap();
    assert_eq!(block_cnt * BLOCK, read);
}

#[test]
fn pipe_reader_buffered() {
    let i = b"hello there";
    let (mut r, mut w) = pipe_buffered();
    let o = scope(|s| {
        s.spawn(move |_| {
            write_all_buffered(&mut w, &i[..5]).unwrap();
            write_all_buffered(&mut w, &i[5..]).unwrap();
            w.flush().unwrap();
            drop(w);
        });
        read_to_end(&mut r, 64)
    })
    .unwrap();
    assert_eq!(i, &o[..]);
}

#[test]
fn pipe_writer_fail_buffered() {
    let i = &[0; DEFAULT_BUF_SIZE * 2];
    let (r, mut w) = pipe_buffered();
    scope(|s| {
        s.spawn(move |_| {
            drop(r);
        });
    })
    .unwrap();
    assert!(write_all_buffered(&mut w, i).is_err());
}

#[test]
fn small_reads_buffered() {
    let block_cnt = 20;
    const BLOCK: usize = 20;
    let (mut r, mut w) = pipe_buffered();
    let read = scope(|s| {
        s.spawn(move |_| {
            for _ in 0..block_cnt {
                let data = &[0; BLOCK];
                write_all_buffered(&mut w, data).unwrap();
            }
            w.flush().unwrap();
        });
        let mut buff = [0; BLOCK / 2];
        let mut read = 0;
        while let Ok(size) = r.read(&mut buff) {
            // 0 means end of stream
            if size == 0 {
                break;
            }
            read += size;
        }
        read
    })
    .unwrap();
    assert_eq!(block_cnt * BLOCK, read);
}

#[test]
fn reads_of_any_size_reassemble_the_stream() {
    let data: Vec<u8> = (0..1000u32).map(|i| (i % 251) as u8).collect();
    for chunk in [1usize, 3, 7, 64, 1000, 4096] {
        let (mut r, w) = pipe();
        let o = scope(|s| {
            let d = &data;
            s.spawn(move |_| {
                for part in d.chunks(97) {
                    write_all(&w, part).unwrap();
                }
            });
            read_to_end(&mut r, chunk)
        })
        .unwrap();
        assert_eq!(data, o);
    }
}

#[test]
fn short_read_takes_exactly_the_buffer() {
    let (mut r, w) = pipe();
    scope(|s| {
        s.spawn(move |_| {
            assert_eq!(w.write(b"hello world"), Ok(11));
        });
        let mut buf = [0u8; 4];
        assert_eq!(r.read(&mut buf), Ok(4));
        assert_eq!(&buf, b"hell");
        assert_eq!(r.read(&mut buf), Ok(4));
        assert_eq!(&buf, b"o wo");
        assert_eq!(r.read(&mut buf), Ok(3));
        assert_eq!(&buf[..3], b"rld");
        assert_eq!(&buf[3..], b"o");
    })
    .unwrap();
}

#[test]
fn larger_buffer_gets_one_chunk_only() {
    let (mut r, w) = pipe();
    scope(|s| {
        s.spawn(move |_| {
            w.write(b"abc").unwrap();
            w.write(b"defg").unwrap();
        });
        let mut buf = [0u8; 16];
        assert_eq!(r.read(&mut buf), Ok(3));
        assert_eq!(&buf[..3], b"abc");
        assert_eq!(r.read(&mut buf), Ok(4));
        assert_eq!(&buf[..4], b"defg");
    })
    .unwrap();
}

#[test]
fn empty_read_returns_zero_without_waiting() {
    let (mut r, _w) = pipe();
    let mut buf = [0u8; 0];
    assert_eq!(r.read(&mut buf), Ok(0));
}

#[test]
fn end_of_stream_is_final() {
    let (mut r, w) = pipe();
    drop(w);
    let mut buf = [7u8; 8];
    assert_eq!(r.read(&mut buf), Ok(0));
    assert_eq!(r.read(&mut buf), Ok(0));
    assert_eq!(r.read(&mut buf), Ok(0));
    assert_eq!(buf, [7u8; 8]);
    assert_eq!(r.fill_buf().map(|b| b.len()), Ok(0));
}

#[test]
fn empty_chunks_are_passed_over() {
    let (mut r, w) = pipe();
    scope(|s| {
        s.spawn(move |_| {
            w.write(b"").unwrap();
            w.send(Vec::new()).unwrap();
            w.write(b"xy").unwrap();
        });
        let mut buf = [0u8; 8];
        assert_eq!(r.read(&mut buf), Ok(2));
        assert_eq!(&buf[..2], b"xy");
        assert_eq!(r.read(&mut buf), Ok(0));
    })
    .unwrap();
}

#[test]
fn write_after_reader_dropped_is_broken_pipe() {
    let (r, w) = pipe();
    scope(|s| {
        let mut r = r;
        let h = s.spawn(move |_| {
            let mut buf = [0u8; 8];
            let n = r.read(&mut buf).unwrap();
            assert_eq!(&buf[..n], b"hi");
            drop(r);
        });
        assert_eq!(w.write(b"hi"), Ok(2));
        h.join().unwrap();
        assert_eq!(w.write(b"again"), Err(PipeError::BrokenPipe));
    })
    .unwrap();
}

#[test]
fn send_after_reader_dropped_is_broken_pipe() {
    let (r, w) = pipe();
    drop(r);
    assert_eq!(w.send(b"x".to_vec()), Err(PipeError::BrokenPipe));
    assert_eq!(w.flush(), Ok(()));
}

#[test]
fn clones_share_the_channel() {
    let (mut r, w) = pipe();
    let w2 = w.clone();
    scope(|s| {
        s.spawn(move |_| {
            w.write(b"one").unwrap();
            drop(w);
            w2.write(b"two").unwrap();
        });
        assert_eq!(read_to_end(&mut r, 8), b"onetwo".to_vec());
    })
    .unwrap();
}

#[test]
fn reader_into_inner_keeps_unread_bytes() {
    let (mut r, w) = pipe();
    scope(|s| {
        s.spawn(move |_| {
            w.write(b"abcdef").unwrap();
        });
        let mut buf = [0u8; 2];
        assert_eq!(r.read(&mut buf), Ok(2));
    })
    .unwrap();
    let (_rx, rest) = r.into_inner();
    assert_eq!(rest, b"cdef".to_vec());
}

#[test]
fn fill_buf_and_consume() {
    let (mut r, w) = pipe();
    scope(|s| {
        s.spawn(move |_| {
            w.write(b"abcd").unwrap();
        });
        assert_eq!(r.fill_buf().unwrap(), b"abcd");
        r.consume(1);
        assert_eq!(r.fill_buf().unwrap(), b"bcd");
        r.consume(3);
        assert_eq!(r.fill_buf().unwrap(), b"");
    })
    .unwrap();
}

#[test]
fn small_write_with_nobody_reading_stays_buffered() {
    let (_r, mut w) = pipe_buffered_with_capacity(8);
    assert_eq!(w.write(b"ab"), Ok(2));
    assert_eq!(w.buffer(), b"ab");
    assert_eq!(w.write(b"cd"), Ok(2));
    assert_eq!(w.buffer(), b"abcd");
    let (_tx, held) = w.into_inner();
    assert_eq!(held, b"abcd".to_vec());
}

#[test]
fn write_takes_only_what_fits() {
    let (_r, mut w) = pipe_buffered_with_capacity(8);
    assert_eq!(w.write(b"abcdef"), Ok(6));
    assert_eq!(w.capacity(), 8);
    // nobody reads, so dropping `w` with bytes held back would wait forever
    let (_tx, held) = w.into_inner();
    assert_eq!(held, b"abcdef".to_vec());

    let (r, mut w2) = pipe_buffered_with_capacity(8);
    assert_eq!(w2.write(b"abcdef"), Ok(6));
    drop(r);
    // two more bytes fit, the buffer is then full and its flush fails
    assert_eq!(w2.write(b"ghijk"), Err(PipeError::BrokenPipe));
    assert_eq!(w2.buffer(), b"abcdefgh");
}

#[test]
fn accepted_count_when_buffer_fills() {
    let (mut r, mut w) = pipe_buffered_with_capacity(8);
    let (go, wait) = crossbeam_channel::bounded::<()>(1);
    let o = scope(|s| {
        s.spawn(move |_| {
            // nobody reads yet, so these bytes stay in the buffer
            assert_eq!(w.write(b"abcdef"), Ok(6));
            assert_eq!(w.buffer(), b"abcdef");
            go.send(()).unwrap();
            // two bytes fit; the full buffer is then sent as one chunk
            assert_eq!(w.write(b"ghijk"), Ok(2));
            assert!(w.buffer().is_empty());
            assert_eq!(w.write(b"ijk"), Ok(3));
            w.flush().unwrap();
        });
        wait.recv().unwrap();
        let mut buf = [0u8; 16];
        assert_eq!(r.read(&mut buf), Ok(8));
        assert_eq!(&buf[..8], b"abcdefgh");
        read_to_end(&mut r, 3)
    })
    .unwrap();
    assert_eq!(o, b"ijk".to_vec());
}

#[test]
fn opportunistic_send_to_dropped_reader_restores_buffer() {
    let (r, mut w) = pipe_buffered_with_capacity(8);
    assert_eq!(w.write(b"ab"), Ok(2));
    drop(r);
    assert_eq!(w.write(b"cd"), Err(PipeError::BrokenPipe));
    assert_eq!(w.buffer(), b"ab");
}

#[test]
fn failed_flush_keeps_the_bytes() {
    let (r, mut w) = pipe_buffered_with_capacity(8);
    assert_eq!(w.write(b"xyz"), Ok(3));
    drop(r);
    assert_eq!(w.flush(), Err(PipeError::BrokenPipe));
    assert_eq!(w.buffer(), b"xyz");
    assert_eq!(w.flush(), Err(PipeError::BrokenPipe));
    assert_eq!(w.buffer(), b"xyz");
}

#[test]
fn flush_of_empty_buffer_succeeds_at_once() {
    let (r, mut w) = pipe_buffered_with_capacity(8);
    drop(r);
    assert_eq!(w.flush(), Ok(()));
    assert!(w.buffer().is_empty());
}

#[test]
fn buffered_writes_coalesce_in_order() {
    let (mut r, mut w) = pipe_buffered_with_capacity(16);
    let o = scope(|s| {
        s.spawn(move |_| {
            for part in [&b"ab"[..], b"cde", b"f", b"ghij", b"klm"] {
                write_all_buffered(&mut w, part).unwrap();
            }
            w.flush().unwrap();
            assert!(w.buffer().is_empty());
        });
        read_to_end(&mut r, 5)
    })
    .unwrap();
    assert_eq!(o, b"abcdefghijklm".to_vec());
}

#[test]
fn oversized_write_goes_out_whole() {
    let data: Vec<u8> = (0..20u8).collect();
    let (mut r, mut w) = pipe_buffered_with_capacity(4);
    let o = scope(|s| {
        let d = &data;
        s.spawn(move |_| {
            assert_eq!(w.write(d), Ok(20));
            assert!(w.buffer().is_empty());
            let (_tx, held) = w.into_inner();
            assert!(held.is_empty());
        });
        read_to_end(&mut r, 64)
    })
    .unwrap();
    assert_eq!(o, data);
}

#[test]
fn capacity_four_scenario() {
    let (mut r, mut w) = pipe_buffered_with_capacity(4);
    let o = scope(|s| {
        s.spawn(move |_| {
            write_all_buffered(&mut w, b"ab").unwrap();
            write_all_buffered(&mut w, b"cd").unwrap();
            write_all_buffered(&mut w, b"ef").unwrap();
            w.flush().unwrap();
        });
        let mut o = Vec::new();
        let mut buf = [0u8; 6];
        while o.len() < 6 {
            let n = r.read(&mut buf).unwrap();
            assert!(n > 0);
            o.extend_from_slice(&buf[..n]);
        }
        o
    })
    .unwrap();
    assert_eq!(o, b"abcdef".to_vec());
}

#[test]
fn dropping_buffered_writer_sends_the_rest() {
    let (mut r, mut w) = pipe_buffered_with_capacity(8);
    let o = scope(|s| {
        s.spawn(move |_| {
            write_all_buffered(&mut w, b"tail").unwrap();
            drop(w);
        });
        read_to_end(&mut r, 8)
    })
    .unwrap();
    assert_eq!(o, b"tail".to_vec());
}

#[test]
fn buffered_clone_starts_empty() {
    let (_r, mut w) = pipe_buffered_with_capacity(8);
    assert_eq!(w.write(b"abc"), Ok(3));
    let c = w.clone();
    assert!(c.buffer().is_empty());
    assert_eq!(c.capacity(), 8);
    assert_eq!(w.buffer(), b"abc");
    let (_tx, held) = c.into_inner();
    assert!(held.is_empty());
    let (_tx, held) = w.into_inner();
    assert_eq!(held, b"abc".to_vec());
}

#[test]
fn default_capacity() {
    let (_r, w) = pipe_buffered();
    assert_eq!(w.capacity(), 8192);
    assert_eq!(DEFAULT_BUF_SIZE, 8192);
}

#[test]
fn error_messages() {
    assert_eq!(pipe::epipe(), PipeError::BrokenPipe);
    assert_eq!(PipeError::BrokenPipe.message(), "pipe reader has been dropped");
    assert_eq!(PipeError::Interrupted.message(), "no data yet, try again");
}

#[test]
fn extracted_senders_feed_the_same_reader() {
    let (mut r, w) = pipe();
    let tx = w.into_inner();
    let (mut r2, bw) = pipe_buffered();
    let (tx2, held) = bw.into_inner();
    assert!(held.is_empty());
    let (a, b) = scope(|s| {
        s.spawn(move |_| {
            tx.send(b"raw".to_vec()).unwrap();
            drop(tx);
            tx2.send(b"too".to_vec()).unwrap();
        });
        (read_to_end(&mut r, 8), read_to_end(&mut r2, 8))
    })
    .unwrap();
    assert_eq!(a, b"raw".to_vec());
    assert_eq!(b, b"too".to_vec());
}

#[test]
fn borrowed_sender_is_the_writers_own() {
    let (mut r, w) = pipe_buffered_with_capacity(8);
    let o = scope(|s| {
        s.spawn(move |_| {
            w.sender().send(b"via".to_vec()).unwrap();
            drop(w);
        });
        read_to_end(&mut r, 8)
    })
    .unwrap();
    assert_eq!(o, b"via".to_vec());
}

#[test]
fn each_answer_of_the_channel_decides_the_next_step() {
    assert_eq!(next_step(&None, 0), ReadStep::End);
    assert_eq!(next_step(&None, u64::MAX - 1), ReadStep::End);
    assert_eq!(next_step(&Some(vec![1u8]), 0), ReadStep::Ready);
    assert_eq!(next_step(&Some(vec![1u8, 2]), u64::MAX - 1), ReadStep::Ready);
    assert_eq!(next_step(&Some(Vec::new()), 0), ReadStep::Again);
    assert_eq!(next_step(&Some(Vec::new()), u64::MAX - 2), ReadStep::Again);
    assert_eq!(next_step(&Some(Vec::new()), u64::MAX - 1), ReadStep::GiveUp);
}

#[test]
fn dropping_with_empty_buffer_sends_nothing() {
    // nobody reads: a send here would wait forever
    let (_r, mut w) = pipe_buffered_with_capacity(8);
    assert_eq!(w.write(b""), Ok(0));
    assert!(w.buffer().is_empty());
    drop(w);
}

use body_image::cli::{
    check_copy, compress_flags, filter_flags, part_flags, request_headers, separator, CliError, Filter, Flag, Parts,
    Selected, Selection, StartPos, StrategyChoice,
};
use body_image::mem_util::{advise, advised, AdviceCodes, MadviseError, MemoryAccess};

#[test]
fn filters() {
    let all = Filter { start: StartPos::Index(0), count: usize::MAX };
    assert_eq!(filter_flags(1, None, None, None), Ok(all));
    assert_eq!(filter_flags(3, None, None, None), Ok(all));
    assert_eq!(
        filter_flags(1, Some("3"), None, Some("2")),
        Ok(Filter { start: StartPos::Index(3), count: 2 })
    );
    assert_eq!(
        filter_flags(1, None, Some("0x1F"), None),
        Ok(Filter { start: StartPos::Offset(31), count: usize::MAX })
    );
    assert_eq!(
        filter_flags(1, None, Some("54"), None),
        Ok(Filter { start: StartPos::Offset(54), count: usize::MAX })
    );
    assert_eq!(filter_flags(2, Some("3"), None, None), Err(CliError::SingleFile(Flag::Index)));
    assert_eq!(filter_flags(2, None, Some("3"), None), Err(CliError::SingleFile(Flag::Offset)));
    assert_eq!(filter_flags(2, None, None, Some("3")), Err(CliError::SingleFile(Flag::Count)));
    let not_a_number = |text: &str| Err(CliError::Number(text.to_owned()));
    let digit = "invalid digit found in string";
    assert_eq!(filter_flags(1, Some("x"), None, None), not_a_number(digit));
    assert_eq!(filter_flags(1, None, Some("1F"), None), not_a_number(digit));
    assert_eq!(filter_flags(1, None, Some("0xG"), None), not_a_number(digit));
    assert_eq!(filter_flags(1, None, None, Some("-1")), not_a_number(digit));
    let empty = "cannot parse integer from empty string";
    assert_eq!(filter_flags(1, Some(""), None, None), not_a_number(empty));
    assert_eq!(filter_flags(1, None, Some("0x"), None), not_a_number(empty));
    let large = "number too large to fit in target type";
    assert_eq!(filter_flags(1, None, Some("18446744073709551616"), None), not_a_number(large));
    assert_eq!(filter_flags(1, None, Some("0x10000000000000000"), None), not_a_number(large));
    assert_eq!(filter_flags(1, None, None, Some("18446744073709551616")), not_a_number(large));
    assert_eq!(
        CliError::SingleFile(Flag::Offset).message(),
        "--offset flag can't be applied to more than one input file"
    );
    assert_eq!(CliError::Number(digit.to_owned()).message(), digit);
    assert_eq!(StartPos::default(), StartPos::Index(0));
}

fn taken(filter: Filter) -> Vec<usize> {
    let mut s = Selection::new(filter);
    let mut out = Vec::new();
    for i in 0..10 {
        match s.select() {
            Selected::Skip => (),
            Selected::Take => out.push(i),
            Selected::Stop => break,
        }
    }
    out
}

#[test]
fn selections() {
    assert_eq!(taken(Filter { start: StartPos::Index(2), count: 3 }), vec![2, 3, 4]);
    assert_eq!(taken(Filter { start: StartPos::Index(0), count: 0 }), vec![]);
    assert_eq!(taken(Filter { start: StartPos::Offset(99), count: 2 }), vec![0, 1]);
    assert_eq!(taken(Filter { start: StartPos::Index(8), count: usize::MAX }), vec![8, 9]);
    let s = Selection::new(Filter { start: StartPos::Offset(99), count: 2 });
    assert_eq!(s.offset(), Some(99));
    assert_eq!(Selection::new(Filter { start: StartPos::Index(9), count: 2 }).offset(), None);
}

#[test]
fn parts_of_records() {
    assert_eq!(part_flags(Parts::falsie()), Parts::default());
    let one = Parts { res_body: true, ..Parts::falsie() };
    assert_eq!(part_flags(one), one);
    assert!(Parts::default().meta && Parts::default().req_head && Parts::default().req_body);
}

#[test]
fn choices_of_compression() {
    assert_eq!(compress_flags(false, false), StrategyChoice::Plain);
    assert_eq!(compress_flags(true, false), StrategyChoice::Brotli);
    assert_eq!(compress_flags(false, true), StrategyChoice::Gzip);
}

#[test]
fn copies_need_two_files() {
    assert_eq!(check_copy("a", "b"), Ok(()));
    assert_eq!(check_copy("a", "a"), Err(CliError::SameFile));
    assert_eq!(CliError::SameFile.message(), "BARC input and output must be different files");
}

#[test]
fn separators() {
    for path in ["a.barc", "äöü.barc", "a/path/that/is/longer/than/all/of/the/room/there.barc", ""] {
        for offset in [0u64, 15, 16, 54, 0xabcdef, u64::MAX] {
            assert_eq!(
                separator(path, offset),
                format!("====== file {:-<38} offset {:#012x} ======", path, offset)
            );
        }
    }
}

#[test]
fn headers_of_requests() {
    let list = request_headers(None);
    assert_eq!(list.len(), 4);
    assert_eq!((list[0].name, list[0].value.as_str()), ("accept", body_image::futio::fetch::BROWSE_ACCEPT));
    assert_eq!((list[1].name, list[1].value.as_str()), ("accept-language", "en"));
    assert_eq!((list[2].name, list[2].value.as_str()), ("accept-encoding", "br, gzip, deflate"));
    assert_eq!((list[3].name, list[3].value.clone()), ("user-agent", body_image::futio::fetch::user_agent()));
    assert_eq!(request_headers(Some("*/*"))[0].value, "*/*");
}

#[test]
fn memory_advice() {
    let codes = AdviceCodes { no_need: 4, normal: 0, need: 3, random: 1, sequential: 2 };
    assert_eq!(advise(&[], &codes), 0);
    assert_eq!(advise(&[MemoryAccess::NoNeed, MemoryAccess::Random], &codes), 5);
    assert_eq!(advise(&[MemoryAccess::Random, MemoryAccess::NoNeed], &codes), 5);
    assert_eq!(advise(&[MemoryAccess::Need, MemoryAccess::Sequential, MemoryAccess::Normal], &codes), 3);
    assert_eq!(advised(0), Ok(()));
    assert_eq!(advised(-22), Err(MadviseError { ecode: -22 }));
    assert_eq!(
        MadviseError { ecode: -22 }.message(),
        "libc::posix_madvise error return code -22"
    );
    assert_eq!(
        MadviseError { ecode: i32::MIN }.message(),
        format!("libc::posix_madvise error return code {}", i32::MIN)
    );
    assert_eq!(MadviseError { ecode: 12 }.message(), "libc::posix_madvise error return code 12");
    let order = [
        MemoryAccess::NoNeed,
        MemoryAccess::Normal,
        MemoryAccess::Need,
        MemoryAccess::Random,
        MemoryAccess::Sequential,
    ];
    for pair in order.windows(2) {
        assert!(pair[0] < pair[1]);
        assert!(pair[0].priority() < pair[1].priority());
    }
    assert_eq!(order[4].priority(), 40);
}

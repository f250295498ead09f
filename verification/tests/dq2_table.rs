use jumon::dq2::GameData;
fn cases() -> Vec<(&'static str, GameData)> {
    vec![
        (
            "ぱぽらとこぷうげゆくぱふざこはやくべいすなふまゆうな",
            GameData {
                hero_name: ['こ', 'に', 'あ', 'わ'],
                hero_items: [69, 64, 49, 17, 66, 65, 8, 113],
                prince_items: [0, 0, 0, 0, 0, 0, 0, 0],
                princess_items: [0, 0, 0, 0, 0, 0, 0, 0],
                hero_experience: 545123,
                prince_experience: 0,
                princess_experience: 0,
                prince_flag: false,
                princess_flag: false,
                gold: 27424,
                location: 4,
                progress_flags: [true, false, false, true, true, true, false],
                crests: [true, true, true, false, false],
                encryption_key: 1,
                checksum: 1886,
            },
        ),
        (
            "ざてばぶいまばゆられぴぴいうめろざむぱひまあさえげぎぼもぐげにしめのちゆとばあいぺれうふやうべごびぜあび",
            GameData {
                hero_name: ['ね', '９', '２', 'を'],
                hero_items: [13, 57, 83, 96, 112, 73, 113, 47],
                prince_items: [9, 58, 85, 109, 93, 29, 104, 68],
                princess_items: [48, 29, 118, 109, 67, 60, 23, 90],
                hero_experience: 528391,
                prince_experience: 370254,
                princess_experience: 590794,
                prince_flag: true,
                princess_flag: true,
                gold: 49605,
                location: 6,
                progress_flags: [false, false, false, false, true, false, false],
                crests: [false, false, true, false, false],
                encryption_key: 2,
                checksum: 1599,
            },
        ),
        (
            "まらねがゆせえくてまげりぼずこうおそあさぱり",
            GameData {
                hero_name: ['け', 'ん', 'け', '０'],
                hero_items: [124, 26, 112, 107, 52, 0, 0, 0],
                prince_items: [0, 0, 0, 0, 0, 0, 0, 0],
                princess_items: [0, 0, 0, 0, 0, 0, 0, 0],
                hero_experience: 737108,
                prince_experience: 0,
                princess_experience: 0,
                prince_flag: false,
                princess_flag: false,
                gold: 20828,
                location: 0,
                progress_flags: [false, false, true, true, true, false, false],
                crests: [false, false, false, true, true],
                encryption_key: 8,
                checksum: 1012,
            },
        ),
        (
            "ろむぺくちけげいたぱねのくふぱあらぞおそ",
            GameData {
                hero_name: ['に', 'ら', 'く', 'ま'],
                hero_items: [72, 52, 105, 0, 0, 0, 0, 0],
                prince_items: [0, 0, 0, 0, 0, 0, 0, 0],
                princess_items: [0, 0, 0, 0, 0, 0, 0, 0],
                hero_experience: 570663,
                prince_experience: 0,
                princess_experience: 0,
                prince_flag: false,
                princess_flag: false,
                gold: 1897,
                location: 3,
                progress_flags: [false, true, true, false, false, true, false],
                crests: [false, false, true, true, false],
                encryption_key: 10,
                checksum: 1407,
            },
        ),
        (
            "うとわぎぴぺぜさじわえれぶるざりねらりちも",
            GameData {
                hero_name: ['ろ', 'き', '゜', 'あ'],
                hero_items: [92, 55, 124, 116, 0, 0, 0, 0],
                prince_items: [0, 0, 0, 0, 0, 0, 0, 0],
                princess_items: [0, 0, 0, 0, 0, 0, 0, 0],
                hero_experience: 997089,
                prince_experience: 0,
                princess_experience: 0,
                prince_flag: false,
                princess_flag: false,
                gold: 32781,
                location: 0,
                progress_flags: [false, false, true, true, false, true, true],
                crests: [true, false, true, false, true],
                encryption_key: 7,
                checksum: 100,
            },
        ),
        (
            "のかひのくぼふべまぞぶがひてげあざぱえにぞれて",
            GameData {
                hero_name: ['ょ', 'て', 'り', 'お'],
                hero_items: [0, 0, 0, 0, 0, 0, 0, 0],
                prince_items: [127, 29, 0, 0, 0, 0, 0, 0],
                princess_items: [0, 0, 0, 0, 0, 0, 0, 0],
                hero_experience: 112503,
                prince_experience: 688419,
                princess_experience: 0,
                prince_flag: true,
                princess_flag: false,
                gold: 15656,
                location: 2,
                progress_flags: [false, false, true, false, false, false, true],
                crests: [false, false, false, false, false],
                encryption_key: 7,
                checksum: 819,
            },
        ),
        (
            "ぽふぎぽけわぎてぶそはりもぱぽしてろぎさぬすそへぞきこぽあかむちけずそへみこゆもくのなえふむへみうくにぱ",
            GameData {
                hero_name: ['し', 'ゃ', 'ぬ', 'き'],
                hero_items: [6, 83, 123, 18, 25, 62, 20, 84],
                prince_items: [21, 118, 52, 78, 92, 87, 121, 75],
                princess_items: [86, 80, 15, 15, 111, 65, 21, 11],
                hero_experience: 56656,
                prince_experience: 966629,
                princess_experience: 518675,
                prince_flag: true,
                princess_flag: true,
                gold: 36607,
                location: 5,
                progress_flags: [false, false, false, true, false, false, true],
                crests: [false, false, false, false, true],
                encryption_key: 3,
                checksum: 1994,
            },
        ),
        (
            "へじゆきぜつなよいいさぺねぷまらえぷぺれぞりちぽなこけじよ",
            GameData {
                hero_name: ['や', 'ろ', 'お', '７'],
                hero_items: [53, 95, 117, 2, 55, 0, 0, 0],
                prince_items: [121, 31, 0, 0, 0, 0, 0, 0],
                princess_items: [0, 0, 0, 0, 0, 0, 0, 0],
                hero_experience: 547383,
                prince_experience: 760516,
                princess_experience: 0,
                prince_flag: true,
                princess_flag: false,
                gold: 57248,
                location: 1,
                progress_flags: [true, true, false, false, true, true, true],
                crests: [true, false, false, false, true],
                encryption_key: 12,
                checksum: 945,
            },
        ),
        (
            "そはくぽとばくよげそばよあほうぐえまきへぴきねへるなぼたぐずぷれのこけぼほけびはれくえよべぴふじらそかぺ",
            GameData {
                hero_name: ['１', 'の', 'な', 'や'],
                hero_items: [34, 94, 34, 39, 3, 13, 2, 34],
                prince_items: [17, 84, 43, 91, 110, 115, 121, 117],
                princess_items: [60, 67, 123, 52, 120, 36, 103, 84],
                hero_experience: 417176,
                prince_experience: 856354,
                princess_experience: 751814,
                prince_flag: true,
                princess_flag: true,
                gold: 46323,
                location: 0,
                progress_flags: [false, false, true, true, false, false, true],
                crests: [true, true, false, false, true],
                encryption_key: 10,
                checksum: 491,
            },
        ),
        (
            "せきろじべせぴれるふちじてげぐれにぴえとれぷまぴまはめたぽかみかつにぴろすおちすげきざみぎろめはがげのほ",
            GameData {
                hero_name: ['く', '０', 'ち', 'し'],
                hero_items: [83, 16, 33, 84, 104, 94, 54, 127],
                prince_items: [53, 113, 73, 3, 18, 91, 125, 36],
                princess_items: [86, 47, 86, 77, 40, 0, 76, 10],
                hero_experience: 226735,
                prince_experience: 393943,
                princess_experience: 189957,
                prince_flag: true,
                princess_flag: true,
                gold: 17691,
                location: 7,
                progress_flags: [true, true, true, false, false, true, true],
                crests: [false, true, true, false, false],
                encryption_key: 1,
                checksum: 415,
            },
        ),
        (
            "えばくわごそなういすうべまやしじごへてよとてびまがえきほぜむぼな",
            GameData {
                hero_name: ['え', 'ら', '４', 'す'],
                hero_items: [121, 43, 34, 27, 30, 0, 0, 0],
                prince_items: [2, 85, 45, 38, 12, 0, 0, 0],
                princess_items: [0, 0, 0, 0, 0, 0, 0, 0],
                hero_experience: 691257,
                prince_experience: 101971,
                princess_experience: 0,
                prince_flag: true,
                princess_flag: false,
                gold: 58049,
                location: 7,
                progress_flags: [true, true, true, false, true, false, false],
                crests: [true, true, true, false, true],
                encryption_key: 9,
                checksum: 117,
            },
        ),
        (
            "ごなばわしかりねひおぐずごろぎぜすうまかほふげご",
            GameData {
                hero_name: ['\0', 'あ', 'お', 'ん'],
                hero_items: [47, 85, 92, 101, 126, 83, 0, 0],
                prince_items: [0, 0, 0, 0, 0, 0, 0, 0],
                princess_items: [0, 0, 0, 0, 0, 0, 0, 0],
                hero_experience: 586640,
                prince_experience: 0,
                princess_experience: 0,
                prince_flag: false,
                princess_flag: false,
                gold: 29848,
                location: 2,
                progress_flags: [false, false, false, true, false, true, false],
                crests: [true, true, false, true, false],
                encryption_key: 8,
                checksum: 1540,
            },
        ),
        (
            "とやゆたきいべるがざぜぬふごぷかなぽざれふりあう",
            GameData {
                hero_name: ['せ', '\0', 'ょ', 'す'],
                hero_items: [27, 39, 6, 108, 5, 23, 0, 0],
                prince_items: [0, 0, 0, 0, 0, 0, 0, 0],
                princess_items: [0, 0, 0, 0, 0, 0, 0, 0],
                hero_experience: 789810,
                prince_experience: 0,
                princess_experience: 0,
                prince_flag: false,
                princess_flag: false,
                gold: 59805,
                location: 4,
                progress_flags: [false, false, false, true, false, false, false],
                crests: [true, false, false, false, false],
                encryption_key: 2,
                checksum: 608,
            },
        ),
        (
            "そよぞありくもむもぷばぶばわえぽやまみみいとほめれほ",
            GameData {
                hero_name: ['え', 'わ', 'う', '゜'],
                hero_items: [65, 95, 111, 71, 71, 6, 0, 19],
                prince_items: [0, 0, 0, 0, 0, 0, 0, 0],
                princess_items: [0, 0, 0, 0, 0, 0, 0, 0],
                hero_experience: 256789,
                prince_experience: 0,
                princess_experience: 0,
                prince_flag: false,
                princess_flag: false,
                gold: 1989,
                location: 1,
                progress_flags: [true, true, true, true, false, false, true],
                crests: [true, true, true, false, true],
                encryption_key: 7,
                checksum: 510,
            },
        ),
        (
            "もえぼつきまえぼぼかあぽめやおぐぱとぐきごげひがもごへさえさことのりみしぜけびえへのてはひおおぎあまたひ",
            GameData {
                hero_name: ['え', 'に', '\0', 'ゅ'],
                hero_items: [22, 89, 74, 106, 30, 105, 33, 80],
                prince_items: [95, 36, 3, 27, 90, 84, 116, 86],
                princess_items: [11, 126, 71, 105, 104, 92, 94, 37],
                hero_experience: 950279,
                prince_experience: 759129,
                princess_experience: 731518,
                prince_flag: true,
                princess_flag: true,
                gold: 21864,
                location: 1,
                progress_flags: [true, true, true, true, false, false, false],
                crests: [true, true, true, true, false],
                encryption_key: 9,
                checksum: 1149,
            },
        ),
        (
            "よきがぺぷらぞがほふせねいじみけなめこばぐならつばせはげそばぐこあゆぬすかぼへおそはま",
            GameData {
                hero_name: ['る', '６', 'ゅ', 'ち'],
                hero_items: [18, 42, 45, 45, 49, 79, 0, 0],
                prince_items: [77, 100, 0, 0, 0, 0, 0, 0],
                princess_items: [55, 115, 109, 73, 124, 81, 100, 2],
                hero_experience: 696042,
                prince_experience: 83018,
                princess_experience: 292195,
                prince_flag: true,
                princess_flag: true,
                gold: 53091,
                location: 5,
                progress_flags: [false, true, true, true, false, true, true],
                crests: [true, true, false, true, true],
                encryption_key: 11,
                checksum: 1159,
            },
        ),
        (
            "ほしがおけかはよこやじへやつずぷくかのぎぶごぐゆうにいいぬごさいうびひ",
            GameData {
                hero_name: ['７', 'っ', 'や', 'ひ'],
                hero_items: [15, 109, 2, 34, 26, 123, 102, 0],
                prince_items: [18, 117, 122, 62, 101, 0, 0, 0],
                princess_items: [0, 0, 0, 0, 0, 0, 0, 0],
                hero_experience: 791223,
                prince_experience: 1029161,
                princess_experience: 0,
                prince_flag: true,
                princess_flag: false,
                gold: 38308,
                location: 6,
                progress_flags: [false, false, false, false, true, false, true],
                crests: [true, false, false, true, true],
                encryption_key: 7,
                checksum: 935,
            },
        ),
        (
            "ぎぼがめぽなからよぷぬほろめばつなぬなやめみぴくきゆきぴふねとざぱやておれあ",
            GameData {
                hero_name: ['や', 'れ', 'む', 'か'],
                hero_items: [1, 127, 89, 78, 125, 90, 17, 113],
                prince_items: [30, 45, 71, 75, 50, 124, 37, 0],
                princess_items: [0, 0, 0, 0, 0, 0, 0, 0],
                hero_experience: 600900,
                prince_experience: 946150,
                princess_experience: 0,
                prince_flag: true,
                princess_flag: false,
                gold: 61995,
                location: 4,
                progress_flags: [true, true, true, false, false, false, true],
                crests: [true, false, true, false, true],
                encryption_key: 5,
                checksum: 1412,
            },
        ),
        (
            "いつのべえぞにぞひすへがほげてやひびびぶびあねりひけひこぱぷずな",
            GameData {
                hero_name: ['ほ', 'た', '゛', 'よ'],
                hero_items: [0, 0, 0, 0, 0, 0, 0, 0],
                prince_items: [120, 0, 0, 0, 0, 0, 0, 0],
                princess_items: [84, 55, 49, 3, 86, 0, 0, 0],
                hero_experience: 639256,
                prince_experience: 570271,
                princess_experience: 592671,
                prince_flag: true,
                princess_flag: true,
                gold: 40983,
                location: 4,
                progress_flags: [false, false, true, false, false, true, true],
                crests: [true, false, false, true, true],
                encryption_key: 1,
                checksum: 15,
            },
        ),
        (
            "ねくがぎゆなしほぐあぽよぽがらもぱたなよぱひけじぱそへひせつまずさぺへちけけかぽぴへるそわねぶてざれしに",
            GameData {
                hero_name: ['お', '７', 'る', 'ほ'],
                hero_items: [42, 64, 9, 84, 77, 106, 76, 20],
                prince_items: [2, 40, 83, 96, 107, 6, 79, 28],
                princess_items: [68, 102, 67, 85, 77, 116, 60, 27],
                hero_experience: 744093,
                prince_experience: 517493,
                princess_experience: 56215,
                prince_flag: true,
                princess_flag: true,
                gold: 32204,
                location: 6,
                progress_flags: [false, true, true, false, true, false, false],
                crests: [false, true, true, true, false],
                encryption_key: 14,
                checksum: 738,
            },
        ),
        (
            "ひぺさもむわのれぎごりとてごびたぺまかずべぐほはくぱりそせのむひたつ",
            GameData {
                hero_name: ['ら', 'よ', '８', 'ほ'],
                hero_items: [90, 122, 45, 65, 25, 109, 0, 0],
                prince_items: [23, 105, 17, 92, 51, 0, 0, 0],
                princess_items: [0, 0, 0, 0, 0, 0, 0, 0],
                hero_experience: 390593,
                prince_experience: 382361,
                princess_experience: 0,
                prince_flag: true,
                princess_flag: false,
                gold: 38554,
                location: 2,
                progress_flags: [false, false, false, true, false, false, false],
                crests: [true, true, true, false, true],
                encryption_key: 0,
                checksum: 874,
            },
        ),
        (
            "れぬゆいじりへずむぞはばるずらまがわもみちてにぬるつがよけべすぜろぱりへにざほぴぞ",
            GameData {
                hero_name: ['３', 'を', 'ら', 'い'],
                hero_items: [27, 123, 55, 76, 0, 66, 0, 0],
                prince_items: [22, 4, 0, 0, 0, 0, 0, 0],
                princess_items: [116, 112, 110, 91, 110, 0, 0, 0],
                hero_experience: 771244,
                prince_experience: 924186,
                princess_experience: 85930,
                prince_flag: true,
                princess_flag: true,
                gold: 23629,
                location: 6,
                progress_flags: [false, true, true, false, false, false, true],
                crests: [false, true, false, false, false],
                encryption_key: 5,
                checksum: 1308,
            },
        ),
        (
            "ぬむつへぐばびぴしぞよのりろはおつえきがよへずてしとけあがまろ",
            GameData {
                hero_name: ['っ', 'っ', 'ち', 'ぬ'],
                hero_items: [19, 59, 124, 45, 57, 83, 55, 0],
                prince_items: [69, 98, 0, 0, 0, 0, 0, 0],
                princess_items: [0, 0, 0, 0, 0, 0, 0, 0],
                hero_experience: 929786,
                prince_experience: 872753,
                princess_experience: 0,
                prince_flag: true,
                princess_flag: false,
                gold: 18255,
                location: 0,
                progress_flags: [false, true, false, true, true, true, false],
                crests: [false, true, false, true, true],
                encryption_key: 6,
                checksum: 751,
            },
        ),
        (
            "むめあむげやげてくとくてげゆれむぷあいほさわれたうにぽもあぽぜ",
            GameData {
                hero_name: ['ょ', 'り', '１', 'り'],
                hero_items: [56, 8, 3, 59, 16, 61, 0, 0],
                prince_items: [9, 111, 109, 0, 0, 0, 0, 0],
                princess_items: [0, 0, 0, 0, 0, 0, 0, 0],
                hero_experience: 226113,
                prince_experience: 339529,
                princess_experience: 0,
                prince_flag: true,
                princess_flag: false,
                gold: 40754,
                location: 0,
                progress_flags: [true, false, true, false, false, false, false],
                crests: [true, true, true, false, false],
                encryption_key: 11,
                checksum: 1034,
            },
        ),
    ]
}

#[test]
fn second_format_decodes_a_table_of_codes() {
    for (code, expected) in cases() {
        assert_eq!(jumon::dq2::decode(code), Ok(expected), "{}", code);
    }
}

#[test]
fn second_format_checksum_of_each_code_is_in_its_record() {
    for (code, expected) in cases() {
        let buffer = jumon::dq2::decode_jumon(code).unwrap();
        assert_eq!(buffer.len(), (code.chars().count() * 6 + 7) / 8);
        let stored = (((buffer[0] >> 3) as u16) << 6) | ((buffer[8] & 0x3f) as u16);
        assert_eq!(stored, expected.checksum);
    }
}

#[test]
fn second_format_table_holds_every_shape_of_party() {
    let all = cases();
    assert!(all.iter().any(|(_, data)| !data.prince_flag));
    assert!(all.iter().any(|(_, data)| data.prince_flag && !data.princess_flag));
    assert!(all.iter().any(|(_, data)| data.princess_flag));
    assert!(all.iter().any(|(code, data)| data.princess_flag && code.chars().count() == 52));
}

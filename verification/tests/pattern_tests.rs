use std::rc::Rc;

use patterns::adapter::{Adaptor, Club, Dancer, EventElement, Musician};
use patterns::builder::{deploy_waiter, MargaritaBuilder, Waiter};
use patterns::chain::{Event, MainWindow, MsgText, SendDialog, Widget};
use patterns::command::{Answer, CreateFile, ReadFile, RenameFile};
use patterns::facade::{FileServer, OperatingSystem, ProcessServer, Server};
use patterns::flyweight::{color_generator, render, CarPool, CarType};
use patterns::fluent_builder::PizzaBuilder;
use patterns::memento::{dumps, loads, Quote};
use patterns::observer::{
    AlreadyExist, BinaryFormatterObs, DefaultFormatter, HexFormatterObs, NotExist, ObserverKind,
    Publisher,
};
use patterns::prototype::{Prototype, Website};
use patterns::singleton::URLFetcher;
use patterns::strategy::{all_unique, all_unique_set, all_unique_sort, pairs};
use patterns::styles::{admire_style, capitalize, dots_style};
use patterns::team::FootballTeam;

#[test]
fn it_works() {
    assert_eq!(2 + 2, 4);
}

#[test]
fn lib_it_works() {
    assert_eq!(2 + 2, 4);
}

#[test]
fn adaptor_gives_every_performer_one_interface() {
    let musician = Musician::new("Roy Ayers".to_string());
    assert_eq!(musician.play(), "plays music");
    assert_eq!(musician.is_called(), "the musician Roy Ayers");
    let dancer = Dancer::new("Shane Sparks".to_string());
    assert_eq!(dancer.dance(), "does a dance performance");
    assert_eq!(dancer.is_called(), "the dancer Shane Sparks");
    let club = Club::new("Jazz Cafe".to_string());
    assert_eq!(club.organize_event(), "does a dance performance");
    assert_eq!(club.is_called(), "the club Jazz Cafe");

    let adapter = Adaptor::new(EventElement::Musician(Musician::new("Roy Ayers".to_string())));
    assert_eq!(adapter.organize_event(), "plays music");
    assert_eq!(adapter.is_called(), "the musician Roy Ayers");
}

#[derive(Debug, PartialEq, Clone)]
struct TestStruct {
    attr0: i32,
    attr1: String,
}

#[test]
fn fn_dumps() {
    let test_struct_0 = TestStruct { attr0: 1, attr1: "test_string".to_string() };
    let test_struct_0_memento = dumps(test_struct_0.clone());
    assert_eq!(test_struct_0, loads(test_struct_0_memento));
}

#[test]
fn quote_state_can_be_saved_and_restored() {
    let mut q = Quote::new("A room without books".to_string(), "Unknown author".to_string());
    assert_eq!(q.get_info(), "A room without books - By Unknown author");
    let memento = q.save_state();
    q.author = "Marcus Tullius Cicero".to_string();
    assert_eq!(q.get_info(), "A room without books - By Marcus Tullius Cicero");
    q.restore_state(memento);
    assert_eq!(q.get_info(), "A room without books - By Unknown author");
}

#[test]
fn waiter_builds_a_margarita() {
    let mut waiter: Waiter<MargaritaBuilder> = Waiter::new();
    assert!(waiter.get_pizza_name().is_none());
    let builder = deploy_waiter("m".to_string()).unwrap();
    waiter.construct_pizza(builder);
    assert_eq!(waiter.get_pizza_name().unwrap(), "margarita");
    assert!(deploy_waiter("c".to_string()).is_none());
}

#[test]
fn fluent_builder_records_the_extras() {
    let pizza = PizzaBuilder::new().add_garlic().add_extra_cheese().build();
    assert_eq!(pizza.get_info(), "Garlic: yes\nExtra cheese: yes");
    let plain = PizzaBuilder::new().build();
    assert_eq!(plain.get_info(), "Garlic: no\nExtra cheese: no");
}

#[test]
fn facade_forwards_to_both_servers() {
    let mut os = OperatingSystem::new();
    os.start();
    assert_eq!(
        os.create_file("foo".to_string(), "hello".to_string(), "-rw-r-r".to_string()),
        "trying to create the file 'hello' for user 'foo' with permissions -rw-r-r"
    );
    assert_eq!(
        os.create_process("bar".to_string(), "ls /tmp".to_string()),
        "trying to create the process 'ls /tmp' for user 'bar'"
    );
    let mut fs = FileServer::new();
    assert_eq!(fs.get_name(), "FileServer");
    fs.boot();
    fs.kill(true);
    let mut ps = ProcessServer::new();
    assert_eq!(ps.get_name(), "ProcessServer");
    ps.boot();
    ps.kill(false);
}

#[test]
fn commands_record_what_they_would_do() {
    let create = CreateFile::new("f.txt".to_string(), "content".to_string());
    assert!(create.can_be_undo());
    assert_eq!(create.path(), "f.txt");
    assert_eq!(create.text(), "content");
    let rename = RenameFile::new("a.txt".to_string(), "b.txt".to_string());
    assert!(rename.can_be_undo());
    assert_eq!(rename.src(), "a.txt");
    assert_eq!(rename.dest(), "b.txt");
    let read = ReadFile::new("c.txt".to_string());
    assert!(!read.can_be_undo());
    assert_eq!(read.path(), "c.txt");
    let answer = Answer::Content("text".to_string());
    assert!(matches!(answer, Answer::Content(_)));
    assert!(matches!(Answer::SUCCEED, Answer::SUCCEED));
}

#[test]
fn events_climb_the_widget_chain() {
    let mw = Rc::new(MainWindow::new());
    let sd = Rc::new(SendDialog::new(Some(Rc::clone(&mw))));
    let msg = MsgText::new(Some(Rc::clone(&sd)));

    assert_eq!(mw.handle(Event::Close).unwrap(), "MainWindow: Close");
    assert_eq!(mw.handle(Event::Down).unwrap(), "MainWindow Default: Down");
    assert_eq!(sd.handle(Event::Paint).unwrap(), "SendDialog: Paint");
    assert_eq!(sd.handle(Event::Close).unwrap(), "MainWindow: Close");
    assert_eq!(msg.handle(Event::Down).unwrap(), "MsgText: Down");
    assert_eq!(msg.handle(Event::Unhandled).unwrap(), "MainWindow Default: Unhandled");
    let lonely: SendDialog<MainWindow> = SendDialog::new(None);
    assert!(lonely.handle(Event::Close).is_err());
    assert!(lonely.handle_default(Event::Paint).is_err());
}

#[test]
fn publisher_keeps_observer_names_unique() {
    let mut publisher = DefaultFormatter::new("test1".to_string());
    assert_eq!(publisher.get_data(), 0);
    assert_eq!(publisher.get_info(), "DefaultFormatter: 'test1' has data = 0");

    assert!(publisher.add(ObserverKind::Hex(HexFormatterObs::new())).is_ok());
    assert_eq!(
        publisher.add(ObserverKind::Hex(HexFormatterObs::new())),
        Err(AlreadyExist)
    );
    assert!(publisher.add(ObserverKind::Binary(BinaryFormatterObs::new())).is_ok());

    let msgs = publisher.set_data(255);
    assert_eq!(msgs.len(), 2);
    assert_eq!(msgs[0], format!("HexFormatterObs: '{}' has now hex data = {:#x}", "test1", 255));
    assert_eq!(msgs[1], format!("BinaryFormatterObs: '{}' has now bin data = {:#b}", "test1", 255));
    assert_eq!(publisher.get_info(), "DefaultFormatter: 'test1' has data = 255");

    let negative = publisher.set_data(-1);
    assert_eq!(negative[0], format!("HexFormatterObs: '{}' has now hex data = {:#x}", "test1", -1));
    assert_eq!(publisher.get_info(), "DefaultFormatter: 'test1' has data = -1");

    let extremes = publisher.set_data(i32::MIN);
    assert_eq!(
        extremes[0],
        format!("HexFormatterObs: '{}' has now hex data = {:#x}", "test1", i32::MIN)
    );
    assert_eq!(
        extremes[1],
        format!("BinaryFormatterObs: '{}' has now bin data = {:#b}", "test1", i32::MIN)
    );
    assert_eq!(publisher.get_info(), format!("DefaultFormatter: 'test1' has data = {}", i32::MIN));

    assert_eq!(publisher.remove("NoSuchObs".to_string()), Err(NotExist));
    assert!(publisher.remove("HexFormatterObs".to_string()).is_ok());
    assert_eq!(publisher.notify().len(), 1);
}

#[test]
fn url_registry_dumps_in_order() {
    let mut fetcher = URLFetcher::new();
    assert_eq!(fetcher.dump_url_registry(), "");
    fetcher.register_url("http://python.org".to_string());
    fetcher.register_url("http://google.com".to_string());
    assert_eq!(fetcher.dump_url_registry(), "http://python.org,http://google.com,");
}

#[test]
fn pairs_wrap_around_the_string() {
    let word = "abc".to_string();
    let mut it = pairs(&word);
    assert_eq!(it.next(), Some(('a', 'b')));
    assert_eq!(it.next(), Some(('b', 'c')));
    assert_eq!(it.next(), Some(('c', 'a')));
    assert_eq!(it.next(), None);
}

#[test]
fn both_strategies_agree_on_distinctness() {
    for word in ["qwer", "ghnvcxz", "qqer", "ggnvcxz", "", "a"] {
        let expected = word.len() == word.bytes().collect::<std::collections::HashSet<u8>>().len();
        assert_eq!(all_unique_sort(word.to_string()), expected);
        assert_eq!(all_unique_set(word.to_string()), expected);
        assert_eq!(all_unique(word.to_string(), &all_unique_sort), expected);
        assert_eq!(all_unique(word.to_string(), &all_unique_set), expected);
    }
}

#[test]
fn styles_shape_the_message() {
    assert_eq!(dots_style(&"happy coding".to_string()), "..........happy coding..........");
    assert_eq!(admire_style(&"ab c".to_string()), "A!B! !C!");
    assert_eq!(capitalize("happy coding".to_string()), "Happy Coding");
    assert_eq!(capitalize("  two  words ".to_string()), "  Two  Words ");
    assert_eq!(capitalize("".to_string()), "");
}

#[test]
fn car_pool_shares_one_car_per_type() {
    let mut pool = CarPool::init();
    let c1 = pool.new_car(CarType::SubCompact);
    let c2 = pool.new_car(CarType::SubCompact);
    let c3 = pool.new_car(CarType::Suv);
    assert_eq!(c1, c2);
    assert_ne!(c2, c3);
    assert_eq!(pool.count(), 2);
    assert_eq!(pool.car_type(c3), CarType::Suv);
    assert_eq!(
        render(CarType::Suv, "red".to_string(), 3, -7),
        "render a car of type Suv, and color red at (3, -7)"
    );
    let colors = [
        "white", "black", "silver", "gray", "red", "blue", "brown", "beige", "yellow", "green",
    ];
    for _ in 0..20 {
        let color = color_generator();
        assert!(colors.contains(&color.as_str()));
    }
}

#[test]
fn prototype_clones_with_new_attributes() {
    let mut keywords_mapped: Vec<(String, String)> = Vec::new();
    keywords_mapped.push(("keywords".to_string(), "python,data,apis,automation".to_string()));

    let site1 = Website::new(
        "ContentGardening".to_string(),
        "contentgardening.com".to_string(),
        "Automation and data-driven apps".to_string(),
        "Kamon Ayeva".to_string(),
        keywords_mapped,
    );
    assert_eq!(site1.get(&"name".to_string()), Some(&"ContentGardening".to_string()));
    assert_eq!(site1.get(&"keywords".to_string()), Some(&"python,data,apis,automation".to_string()));
    assert_eq!(site1.get(&"category".to_string()), None);

    let mut prototype = Prototype::new();
    prototype.register("ka-cg-1".to_string(), site1);

    let mut site2_add_info: Vec<(String, String)> = Vec::new();
    site2_add_info.push(("name".to_string(), "ContentGardeningPlayground".to_string()));
    site2_add_info.push(("category".to_string(), "Membership site".to_string()));

    let site2 = prototype.clone("ka-cg-1".to_string(), site2_add_info).unwrap();
    assert_eq!(site2.get(&"name".to_string()), Some(&"ContentGardeningPlayground".to_string()));
    assert_eq!(site2.get(&"category".to_string()), Some(&"Membership site".to_string()));
    assert_eq!(site2.get(&"domain".to_string()), Some(&"contentgardening.com".to_string()));

    let missing = prototype.clone("nope".to_string(), Vec::new());
    match missing {
        Err(msg) => assert_eq!(msg, "Incorrect object identifier: nope"),
        Ok(_) => panic!("an unknown identifier must be reported"),
    }

    prototype.unregister("ka-cg-1".to_string());
    assert!(prototype.clone("ka-cg-1".to_string(), Vec::new()).is_err());
}

#[test]
fn website_info_lists_attributes_by_sorted_key() {
    let mut add_info: Vec<(String, String)> = Vec::new();
    add_info.push(("keywords".to_string(), "python,data,apis,automation".to_string()));
    let site = Website::new(
        "ContentGardening".to_string(),
        "contentgardening.com".to_string(),
        "Automation and data-driven apps".to_string(),
        "Kamon Ayeva".to_string(),
        add_info,
    );
    assert_eq!(
        site.get_info(),
        "Website: \"ContentGardening\"\n\
         author: Kamon Ayeva\n\
         description: Automation and data-driven apps\n\
         domain: contentgardening.com\n\
         keywords: python,data,apis,automation\n"
    );
}

#[test]
fn team_hands_out_its_members_in_order() {
    let mut members: Vec<String> = Vec::new();
    for i in 1..4 {
        members.push(format!("player{}", i));
    }
    members.push("coach1".to_string());
    let team = FootballTeam::new(members.clone());
    assert_eq!(team.members(), &members);
    assert_eq!(team.into_members(), members);
}

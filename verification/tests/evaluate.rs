use num::{BigInt, One, Signed, Zero};
use savage_core::{
    BinaryOperator, Complex, Context, Error, Expression, Integer, Matrix, Rational,
    RationalRepresentation, Type, UnaryOperator,
};

// Numbers, to and from `num`.

fn integer(n: &BigInt) -> Integer {
    Integer { bytes: n.to_signed_bytes_le() }
}

fn big(n: &Integer) -> BigInt {
    BigInt::from_signed_bytes_le(&n.bytes)
}

fn rational(numer: i64, denom: i64) -> Rational {
    Rational::new(integer(&BigInt::from(numer)), integer(&BigInt::from(denom))).unwrap()
}

fn whole(n: i64) -> Expression {
    Expression::Integer(integer(&BigInt::from(n)))
}

fn fraction(numer: i64, denom: i64) -> Expression {
    Expression::Rational(rational(numer, denom), RationalRepresentation::Fraction)
}

fn decimal(numer: i64, denom: i64) -> Expression {
    Expression::Rational(rational(numer, denom), RationalRepresentation::Decimal)
}

fn complex(re: (i64, i64), im: (i64, i64)) -> Expression {
    Expression::Complex(
        Complex { re: rational(re.0, re.1), im: rational(im.0, im.1) },
        RationalRepresentation::Fraction,
    )
}

fn variable(name: &str) -> Expression {
    Expression::Variable(name.to_owned())
}

fn unary(operator: UnaryOperator, a: Expression) -> Expression {
    Expression::Unary(operator, Box::new(a))
}

fn binary(operator: BinaryOperator, a: Expression, b: Expression) -> Expression {
    Expression::Binary(operator, Box::new(a), Box::new(b))
}

// A reader for the calculator's notation.

#[derive(Clone, Debug, PartialEq)]
enum Token {
    Number(String),
    Word(String),
    Symbol(String),
}

fn tokens(text: &str) -> Vec<Token> {
    let characters: Vec<char> = text.chars().collect();
    let mut found = Vec::new();
    let mut at = 0;
    while at < characters.len() {
        let c = characters[at];
        if c.is_whitespace() {
            at += 1;
        } else if c.is_ascii_digit() {
            let start = at;
            while at < characters.len() && (characters[at].is_ascii_digit() || characters[at] == '.')
            {
                at += 1;
            }
            found.push(Token::Number(characters[start..at].iter().collect()));
        } else if c.is_alphabetic() {
            let start = at;
            while at < characters.len() && characters[at].is_alphanumeric() {
                at += 1;
            }
            found.push(Token::Word(characters[start..at].iter().collect()));
        } else {
            let two: String = characters[at..characters.len().min(at + 2)].iter().collect();
            if ["&&", "||", "==", "!=", "<=", ">="].contains(&two.as_str()) {
                found.push(Token::Symbol(two));
                at += 2;
            } else {
                found.push(Token::Symbol(c.to_string()));
                at += 1;
            }
        }
    }
    found
}

struct Reader {
    tokens: Vec<Token>,
    at: usize,
}

impl Reader {
    fn symbol(&mut self, candidates: &[&str]) -> Option<String> {
        if let Some(Token::Symbol(s)) = self.tokens.get(self.at) {
            if candidates.contains(&s.as_str()) {
                let s = s.clone();
                self.at += 1;
                return Some(s);
            }
        }
        None
    }

    fn left_associative(
        &mut self,
        symbols: &[&str],
        operand: fn(&mut Reader) -> Expression,
    ) -> Expression {
        let mut left = operand(self);
        while let Some(s) = self.symbol(symbols) {
            let right = operand(self);
            left = binary(operator(&s), left, right);
        }
        left
    }

    fn disjunction(&mut self) -> Expression {
        self.left_associative(&["||"], Reader::conjunction)
    }

    fn conjunction(&mut self) -> Expression {
        self.left_associative(&["&&"], Reader::equality)
    }

    fn equality(&mut self) -> Expression {
        self.left_associative(&["==", "!="], Reader::comparison)
    }

    fn comparison(&mut self) -> Expression {
        self.left_associative(&["<=", ">=", "<", ">"], Reader::sum)
    }

    fn sum(&mut self) -> Expression {
        self.left_associative(&["+", "-"], Reader::product)
    }

    fn product(&mut self) -> Expression {
        self.left_associative(&["*", "/", "%"], Reader::prefix)
    }

    fn prefix(&mut self) -> Expression {
        match self.symbol(&["-", "!"]) {
            Some(s) if s == "-" => unary(UnaryOperator::Negation, self.prefix()),
            Some(_) => unary(UnaryOperator::Not, self.prefix()),
            None => self.power(),
        }
    }

    fn power(&mut self) -> Expression {
        let base = self.atom();
        if self.symbol(&["^"]).is_some() {
            let exponent = self.prefix();
            binary(BinaryOperator::Power, base, exponent)
        } else {
            base
        }
    }

    fn atom(&mut self) -> Expression {
        let token = self.tokens[self.at].clone();
        self.at += 1;
        match token {
            Token::Number(digits) => number(&digits),
            Token::Word(word) if word == "true" => Expression::Boolean(true),
            Token::Word(word) if word == "false" => Expression::Boolean(false),
            Token::Word(word) => Expression::Variable(word),
            Token::Symbol(s) if s == "(" => {
                let inner = self.disjunction();
                assert!(self.symbol(&[")"]).is_some());
                inner
            }
            other => panic!("unexpected {:?}", other),
        }
    }
}

fn operator(symbol: &str) -> BinaryOperator {
    match symbol {
        "+" => BinaryOperator::Sum,
        "-" => BinaryOperator::Difference,
        "*" => BinaryOperator::Product,
        "/" => BinaryOperator::Quotient,
        "%" => BinaryOperator::Remainder,
        "^" => BinaryOperator::Power,
        "==" => BinaryOperator::Equal,
        "!=" => BinaryOperator::NotEqual,
        "<" => BinaryOperator::LessThan,
        "<=" => BinaryOperator::LessThanOrEqual,
        ">" => BinaryOperator::GreaterThan,
        ">=" => BinaryOperator::GreaterThanOrEqual,
        "&&" => BinaryOperator::And,
        "||" => BinaryOperator::Or,
        other => panic!("unknown operator {}", other),
    }
}

fn number(digits: &str) -> Expression {
    match digits.find('.') {
        None => Expression::Integer(integer(&digits.parse::<BigInt>().unwrap())),
        Some(point) => {
            let places = digits.len() - point - 1;
            let numer = digits.replace('.', "").parse::<BigInt>().unwrap();
            let denom = num::pow(BigInt::from(10), places);
            Expression::Rational(
                Rational::new(integer(&numer), integer(&denom)).unwrap(),
                RationalRepresentation::Decimal,
            )
        }
    }
}

fn parse(text: &str) -> Expression {
    let mut reader = Reader { tokens: tokens(text), at: 0 };
    let expression = reader.disjunction();
    assert_eq!(reader.at, reader.tokens.len());
    expression
}

// A writer for the calculator's notation.

fn show_rational(q: &Rational, representation: RationalRepresentation) -> String {
    let numer = big(q.numer());
    let denom = big(q.denom());
    if representation == RationalRepresentation::Decimal {
        let mut rest = denom.clone();
        let mut places = 0;
        let mut scaled = numer.abs();
        while !(rest.clone() % BigInt::from(10) != BigInt::zero()
            && rest.clone() % BigInt::from(2) != BigInt::zero()
            && rest.clone() % BigInt::from(5) != BigInt::zero())
        {
            scaled = scaled * BigInt::from(10);
            let common = num::Integer::gcd(&rest, &BigInt::from(10));
            rest = rest / common;
            places += 1;
        }
        if rest.is_one() {
            let digits = (scaled / denom.clone()).to_string();
            let digits = format!("{:0>width$}", digits, width = places + 1);
            let (whole, part) = digits.split_at(digits.len() - places);
            let sign = if numer.is_negative() { "-" } else { "" };
            return format!("{}{}.{}", sign, whole, part);
        }
    }
    format!("{}/{}", numer, denom)
}

fn show(expression: &Expression) -> String {
    match expression {
        Expression::Variable(name) => name.clone(),
        Expression::Function(name, arguments) => {
            let shown: Vec<String> = arguments.iter().map(show).collect();
            format!("{}({})", name, shown.join(", "))
        }
        Expression::Integer(n) => big(n).to_string(),
        Expression::Rational(q, representation) => show_rational(q, *representation),
        Expression::Complex(z, representation) => format!(
            "{} + {}*i",
            show_rational(&z.re, *representation),
            show_rational(&z.im, *representation)
        ),
        Expression::Vector(elements) => {
            let shown: Vec<String> = elements.iter().map(show).collect();
            format!("[{}]", shown.join(", "))
        }
        Expression::Matrix(m) => {
            let shown: Vec<String> = m.elements().iter().map(show).collect();
            format!("[{} x {}: {}]", m.rows(), m.columns(), shown.join(", "))
        }
        Expression::Boolean(b) => b.to_string(),
        Expression::Unary(operator, a) => format!("({:?} {})", operator, show(a)),
        Expression::Binary(operator, a, b) => format!("({} {:?} {})", show(a), operator, show(b)),
    }
}

fn evaluated(expression: &Expression) -> Result<Expression, Error> {
    expression.evaluate(Context::new())
}

fn t(expression: &str, result: &str) {
    assert_eq!(show(&evaluated(&parse(expression)).unwrap()), result);
}

#[test]
fn arithmetic() {
    t("-(-1)", "1");
    t("-0", "0");

    t("1 + 2", "3");
    t("1 + -1", "0");
    t("1/2 + 0.5", "1");
    t(
        "123456789987654321 + 987654321123456789",
        "1111111111111111110",
    );

    t("1 - 2", "-1");
    t("1 - -1", "2");
    t("1/2 - 0.5", "0");
    t(
        "123456789987654321 - 987654321123456789",
        "-864197531135802468",
    );

    t("1 * 2", "2");
    t("1 * -1", "-1");
    t("1/2 * 0.5", "0.25");
    t(
        "123456789987654321 * 987654321123456789",
        "121932632103337905662094193112635269",
    );

    t("1 / 2", "1/2");
    t("1 / -1", "-1");
    t("1/2 / 0.5", "1");
    t(
        "123456789987654321 / 987654321123456789",
        "101010101/808080809",
    );

    t("4 % 2", "0");
    t("0 % 2", "0");
    t("5 % 2", "1");
    t("-5 % 2", "-1");
    t("-5 % -2", "-1");
    t("0.75 % (1/4)", "0");
    t("0.75 % (1/3)", "1/12");
    t("987654321123456789 % 123456789987654321", "1222222221");

    t("i ^ 2", "-1");
    t("2 ^ 3", "8");
    t("2 ^ (-3)", "1/8");
    t("-2 ^ 4", "-16");
    t("(-2) ^ 4", "16");
    t("0.5 ^ 4", "0.0625");
    t("987654321123456789 ^ 5", "939777062588963894467852986656442266299580252508947542802086985660852317355013741720482949");
    t("3 ^ 4 ^ 5", "373391848741020043532959754184866588225409776783734007750636931722079040617265251229993688938803977220468765065431475158108727054592160858581351336982809187314191748594262580938807019951956404285571818041046681288797402925517668012340617298396574731619152386723046235125934896058590588284654793540505936202376547807442730582144527058988756251452817793413352141920744623027518729185432862375737063985485319476416926263819972887006907013899256524297198527698749274196276811060702333710356481");
}

#[test]
fn logic() {
    t("!true", "false");
    t("!false", "true");

    t("true && true", "true");
    t("true && false", "false");
    t("false && true", "false");
    t("false && false", "false");

    t("true || true", "true");
    t("true || false", "true");
    t("false || true", "true");
    t("false || false", "false");
}

#[test]
fn comparisons() {
    t("0 == 0", "true");
    t("0 == 0.0", "true");
    t("0.5 == 1/2", "true");
    t("1/2 == 2/4", "true");
    t("3 ^ 4 ^ 5 == 5 ^ 4 ^ 3", "false");

    t("0 != 0", "false");
    t("0 != 0.0", "false");
    t("0.5 != 1/2", "false");
    t("1/2 != 2/4", "false");
    t("3 ^ 4 ^ 5 != 5 ^ 4 ^ 3", "true");

    t("0 < 0", "false");
    t("0 < 0.0", "false");
    t("0.5 < 1/2", "false");
    t("1/2 < 2/4", "false");
    t("3 ^ 4 ^ 5 < 5 ^ 4 ^ 3", "false");

    t("0 <= 0", "true");
    t("0 <= 0.0", "true");
    t("0.5 <= 1/2", "true");
    t("1/2 <= 2/4", "true");
    t("3 ^ 4 ^ 5 <= 5 ^ 4 ^ 3", "false");

    t("0 > 0", "false");
    t("0 > 0.0", "false");
    t("0.5 > 1/2", "false");
    t("1/2 > 2/4", "false");
    t("3 ^ 4 ^ 5 > 5 ^ 4 ^ 3", "true");

    t("0 >= 0", "true");
    t("0 >= 0.0", "true");
    t("0.5 >= 1/2", "true");
    t("1/2 >= 2/4", "true");
    t("3 ^ 4 ^ 5 >= 5 ^ 4 ^ 3", "true");

    t("true == true", "true");
    t("true == false", "false");
    t("false == true", "false");
    t("false == false", "true");

    t("true != true", "false");
    t("true != false", "true");
    t("false != true", "true");
    t("false != false", "false");
}

#[test]
fn normal_form_is_evaluated_to_itself() {
    for text in ["1/2 + 0.5", "x + 1/2 * 2", "2 ^ (1/2)", "-(x * (3 - 1))", "1 < 2 || y", "i"] {
        let once = evaluated(&parse(text));
        let once = match once {
            Ok(once) => once,
            Err(_) => continue,
        };
        let twice = evaluated(&once).unwrap();
        assert_eq!(twice, once);
    }
    let normal = evaluated(&parse("x + 4 / 8")).unwrap();
    assert_eq!(normal, binary(BinaryOperator::Sum, variable("x"), fraction(1, 2)));
    assert_eq!(evaluated(&normal).unwrap(), normal);
}

#[test]
fn sums_and_products_are_exact() {
    assert_eq!(evaluated(&parse("1/2 + 0.5")).unwrap(), whole(1));
    assert_eq!(evaluated(&parse("1/2 * 0.5")).unwrap(), decimal(1, 4));
    assert_eq!(evaluated(&parse("1/3 + 1/6")).unwrap(), fraction(1, 2));
    assert_eq!(evaluated(&parse("1/3 - 1/2")).unwrap(), fraction(-1, 6));
    assert_eq!(evaluated(&parse("(2/3) / (4/9)")).unwrap(), fraction(3, 2));
}

#[test]
fn numbers_are_demoted() {
    assert_eq!(evaluated(&complex((3, 1), (0, 1))).unwrap(), whole(3));
    assert_eq!(evaluated(&complex((3, 2), (0, 1))).unwrap(), fraction(3, 2));
    assert_eq!(evaluated(&fraction(4, 2)).unwrap(), whole(2));
    assert_eq!(evaluated(&decimal(5, 10)).unwrap(), decimal(1, 2));
    assert_eq!(evaluated(&complex((1, 1), (2, 1))).unwrap(), complex((1, 1), (2, 1)));
    let under_operator =
        evaluated(&binary(BinaryOperator::Sum, variable("x"), complex((6, 3), (0, 1)))).unwrap();
    assert_eq!(under_operator, binary(BinaryOperator::Sum, variable("x"), whole(2)));
}

#[test]
fn remainder_is_truncated() {
    t("-5 % 2", "-1");
    t("-5 % -2", "-1");
    t("5 % -2", "1");
    t("5 % 2", "1");
    t("0.75 % (1/3)", "1/12");
    assert_eq!(evaluated(&parse("7/2 % 1")).unwrap(), fraction(1, 2));
    assert_eq!(evaluated(&parse("-7/2 % 1")).unwrap(), fraction(-1, 2));
}

#[test]
fn powers() {
    t("2 ^ (-3)", "1/8");
    t("i ^ 2", "-1");
    t("i ^ 3 == -i", "true");
    t("2 ^ 0", "1");
    t("0 ^ 5", "0");
    assert_eq!(evaluated(&parse("(1/2) ^ (-2)")).unwrap(), whole(4));
    assert_eq!(
        evaluated(&parse("(1 + i) ^ 2")).unwrap(),
        complex((0, 1), (2, 1))
    );
}

#[test]
fn zero_to_the_power_of_zero_fails() {
    let expression = parse("0 ^ 0");
    assert_eq!(
        evaluated(&expression),
        Err(Error::ZeroToThePowerOfZero {
            expression: expression.clone(),
            base: whole(0),
            exponent: whole(0),
        })
    );
    let expression = parse("(1 - 1) ^ (2 - 2)");
    assert_eq!(
        evaluated(&expression),
        Err(Error::ZeroToThePowerOfZero {
            expression: expression.clone(),
            base: parse("1 - 1"),
            exponent: parse("2 - 2"),
        })
    );
}

#[test]
fn power_that_is_no_number_stays() {
    assert_eq!(
        evaluated(&parse("2 ^ (1/2)")).unwrap(),
        binary(BinaryOperator::Power, whole(2), fraction(1, 2))
    );
    assert_eq!(
        evaluated(&parse("2 ^ i")).unwrap(),
        binary(BinaryOperator::Power, whole(2), complex((0, 1), (1, 1)))
    );
    assert_eq!(
        evaluated(&parse("2 ^ 2147483648")).unwrap(),
        binary(BinaryOperator::Power, whole(2), whole(2147483648))
    );
    assert_eq!(
        evaluated(&parse("1 ^ (-2147483649)")).unwrap(),
        binary(BinaryOperator::Power, whole(1), whole(-2147483649))
    );
    assert_eq!(
        evaluated(&parse("0 ^ (-1)")).unwrap(),
        binary(BinaryOperator::Power, whole(0), whole(-1))
    );
    assert_eq!(evaluated(&parse("1 ^ 2147483647")).unwrap(), whole(1));
    assert_eq!(evaluated(&parse("1 ^ (-2147483648)")).unwrap(), whole(1));
}

#[test]
fn division_by_zero_fails() {
    for text in ["1 / 0", "x / 0.0", "(1 + 2) % (3 - 3)", "i / (i - i)", "0 / 0"] {
        let expression = parse(text);
        let (dividend, divisor) = match &expression {
            Expression::Binary(_, a, b) => ((**a).clone(), (**b).clone()),
            _ => unreachable!(),
        };
        let mut context = Context::new();
        context.insert("x".to_owned(), whole(7));
        assert_eq!(
            expression.evaluate(context),
            Err(Error::DivisionByZero { expression: expression.clone(), dividend, divisor })
        );
    }
    assert_eq!(
        evaluated(&parse("2 + 1 / 0")),
        Err(Error::DivisionByZero { expression: parse("1 / 0"), dividend: whole(1), divisor: whole(0) })
    );
}

#[test]
fn operators_refuse_operands() {
    let expression = parse("true + 1");
    assert_eq!(
        evaluated(&expression),
        Err(Error::InvalidOperand {
            expression: expression.clone(),
            operand: Expression::Boolean(true),
        })
    );
    let expression = parse("1 * (2 == 2)");
    assert_eq!(
        evaluated(&expression),
        Err(Error::InvalidOperand { expression: expression.clone(), operand: parse("2 == 2") })
    );
    let expression = parse("-true");
    assert_eq!(
        evaluated(&expression),
        Err(Error::InvalidOperand {
            expression: expression.clone(),
            operand: Expression::Boolean(true),
        })
    );
    for text in ["!1", "!x", "1 && true", "true || x", "x && y", "true < 1", "1 >= false"] {
        let expression = parse(text);
        assert!(matches!(evaluated(&expression), Err(Error::InvalidOperand { .. })), "{}", text);
    }
}

#[test]
fn left_operand_is_named_first() {
    let expression = parse("true + false");
    assert_eq!(
        evaluated(&expression),
        Err(Error::InvalidOperand {
            expression: expression.clone(),
            operand: Expression::Boolean(true),
        })
    );
    let expression = parse("1 && 2");
    assert_eq!(
        evaluated(&expression),
        Err(Error::InvalidOperand { expression: expression.clone(), operand: whole(1) })
    );
    let expression = parse("true && 2");
    assert_eq!(
        evaluated(&expression),
        Err(Error::InvalidOperand { expression: expression.clone(), operand: whole(2) })
    );
}

fn matrix() -> Expression {
    Expression::Matrix(Matrix::new(1, 2, vec![whole(1), whole(2)]).unwrap())
}

#[test]
fn operands_that_do_not_go_together() {
    let expression = binary(BinaryOperator::Equal, matrix(), Expression::Boolean(true));
    assert_eq!(
        evaluated(&expression),
        Err(Error::IncompatibleOperands {
            expression: expression.clone(),
            operand_1: matrix(),
            operand_2: Expression::Boolean(true),
        })
    );
    for operator in [
        BinaryOperator::Sum,
        BinaryOperator::Difference,
        BinaryOperator::Equal,
        BinaryOperator::NotEqual,
    ] {
        let expression = binary(operator, whole(1), matrix());
        assert_eq!(
            evaluated(&expression),
            Err(Error::IncompatibleOperands {
                expression: expression.clone(),
                operand_1: whole(1),
                operand_2: matrix(),
            })
        );
        let expression = binary(operator, matrix(), whole(1));
        assert!(matches!(evaluated(&expression), Err(Error::IncompatibleOperands { .. })));
    }
    let expression = parse("true != 1");
    assert_eq!(
        evaluated(&expression),
        Err(Error::IncompatibleOperands {
            expression: expression.clone(),
            operand_1: Expression::Boolean(true),
            operand_2: whole(1),
        })
    );
    let product = binary(BinaryOperator::Product, whole(2), matrix());
    assert_eq!(evaluated(&product).unwrap(), product);
}

#[test]
fn equality_is_of_values() {
    t("0.5 == 1/2", "true");
    t("1/2 == 2/4", "true");
    t("1/3 == 0.3", "false");
    t("i == i", "true");
    t("i * i == -1", "true");
    t("i != 1", "true");
}

#[test]
fn complex_numbers_are_not_ordered() {
    let expression = parse("i < 1");
    assert_eq!(
        evaluated(&expression),
        Err(Error::InvalidOperand { expression: expression.clone(), operand: variable("i") })
    );
    let expression = parse("1 >= 2 * i");
    assert_eq!(
        evaluated(&expression),
        Err(Error::InvalidOperand { expression: expression.clone(), operand: parse("2 * i") })
    );
    let expression = parse("i <= i");
    assert_eq!(
        evaluated(&expression),
        Err(Error::InvalidOperand { expression: expression.clone(), operand: variable("i") })
    );
    t("i * i < 0", "true");
}

#[test]
fn numbers_are_ordered_by_value() {
    t("1/3 < 1/2", "true");
    t("-1/2 < -1/3", "true");
    t("1/2 <= 0.5", "true");
    t("2 > 3/2", "true");
    t("-2 >= -3/2", "false");
    t("123456789987654321 < 123456789987654322", "true");
}

#[test]
fn big_integers_are_exact() {
    t("123456789987654321 + 987654321123456789", "1111111111111111110");
    t("340282366920938463463374607431768211456 * 340282366920938463463374607431768211456",
      "115792089237316195423570985008687907853269984665640564039457584007913129639936");
    t("-170141183460469231731687303715884105728 - 1", "-170141183460469231731687303715884105729");
}

#[test]
fn representations_merge() {
    assert_eq!(
        RationalRepresentation::Fraction.merge(RationalRepresentation::Fraction),
        RationalRepresentation::Fraction
    );
    assert_eq!(
        RationalRepresentation::Decimal.merge(RationalRepresentation::Decimal),
        RationalRepresentation::Decimal
    );
    assert_eq!(
        RationalRepresentation::Fraction.merge(RationalRepresentation::Decimal),
        RationalRepresentation::Decimal
    );
    assert_eq!(
        RationalRepresentation::Decimal.merge(RationalRepresentation::Fraction),
        RationalRepresentation::Decimal
    );
    assert_eq!(evaluated(&parse("0.5 + 1/4")).unwrap(), decimal(3, 4));
    assert_eq!(evaluated(&parse("1/2 + 1/4")).unwrap(), fraction(3, 4));
    assert_eq!(evaluated(&parse("0.5 + 0.25")).unwrap(), decimal(3, 4));
    assert_eq!(evaluated(&parse("-0.5")).unwrap(), decimal(-1, 2));
}

#[test]
fn variables_are_looked_up() {
    let mut context = Context::new();
    context.insert("x".to_owned(), parse("y + 1"));
    context.insert("y".to_owned(), parse("z * 2"));
    context.insert("z".to_owned(), whole(5));
    assert_eq!(parse("x + w").evaluate(context).unwrap(), parse("11 + w"));

    assert_eq!(evaluated(&variable("x")).unwrap(), variable("x"));
    assert_eq!(evaluated(&variable("i")).unwrap(), complex((0, 1), (1, 1)));

    let mut context = Context::new();
    context.insert("i".to_owned(), whole(3));
    assert_eq!(parse("i ^ 2").evaluate(context).unwrap(), whole(9));

    let mut context = Context::new();
    context.insert("x".to_owned(), whole(1));
    context.insert("x".to_owned(), whole(2));
    assert_eq!(variable("x").evaluate(context).unwrap(), whole(2));

    let mut context = Context::new();
    context.insert("b".to_owned(), parse("1 < 2"));
    assert_eq!(parse("!b && true").evaluate(context).unwrap(), Expression::Boolean(false));
}

#[test]
fn what_is_not_evaluated_stays() {
    let call = Expression::Function("f".to_owned(), vec![parse("1 + 1"), complex((1, 1), (0, 1))]);
    assert_eq!(evaluated(&call).unwrap(), call);
    let vector = Expression::Vector(vec![parse("1 + 1"), variable("i")]);
    assert_eq!(evaluated(&vector).unwrap(), vector);
    assert_eq!(evaluated(&matrix()).unwrap(), matrix());
    assert_eq!(evaluated(&Expression::Boolean(true)).unwrap(), Expression::Boolean(true));
    assert_eq!(evaluated(&whole(-7)).unwrap(), whole(-7));

    let sum = binary(BinaryOperator::Sum, call.clone(), whole(1));
    assert_eq!(evaluated(&sum).unwrap(), sum);
    let comparison = binary(BinaryOperator::LessThan, variable("x"), parse("1 + 1"));
    assert_eq!(
        evaluated(&comparison).unwrap(),
        binary(BinaryOperator::LessThan, variable("x"), whole(2))
    );
    let negated = parse("!(x == 1) || (y < 2)");
    assert_eq!(evaluated(&negated).unwrap(), negated);
    let negation = parse("-(x + 0.5)");
    assert_eq!(evaluated(&negation).unwrap(), negation);

    let vector = Expression::Vector(vec![whole(1), whole(2)]);
    let compared = binary(BinaryOperator::Equal, vector.clone(), Expression::Boolean(true));
    assert_eq!(evaluated(&compared).unwrap(), compared);
    let negated = unary(UnaryOperator::Negation, vector.clone());
    assert_eq!(evaluated(&negated).unwrap(), negated);
    let added = binary(BinaryOperator::Sum, vector, parse("1 + 1"));
    assert_eq!(
        evaluated(&added).unwrap(),
        binary(BinaryOperator::Sum, Expression::Vector(vec![whole(1), whole(2)]), whole(2))
    );
}

#[test]
fn negation_of_a_matrix_negates_its_elements() {
    let negated = evaluated(&unary(UnaryOperator::Negation, matrix())).unwrap();
    let expected = Matrix::new(
        1,
        2,
        vec![unary(UnaryOperator::Negation, whole(1)), unary(UnaryOperator::Negation, whole(2))],
    )
    .unwrap();
    assert_eq!(negated, Expression::Matrix(expected));
}

#[test]
fn matrix_has_the_shape_it_is_made_with() {
    assert!(Matrix::new(2, 2, vec![whole(1), whole(2), whole(3)]).is_none());
    assert!(Matrix::new(usize::MAX, 2, vec![whole(1)]).is_none());
    assert!(Matrix::new(0, 5, vec![]).is_some());
    let m = Matrix::new(3, 1, vec![whole(1), whole(2), whole(3)]).unwrap();
    assert_eq!(m.rows(), 3);
    assert_eq!(m.columns(), 1);
    assert_eq!(m.elements().len(), 3);
    assert_eq!(m.elements()[2], whole(3));
}

#[test]
fn types_are_read_off_the_root() {
    assert!(matches!(whole(1).typ(), Type::Number(_, RationalRepresentation::Fraction)));
    assert!(matches!(decimal(1, 2).typ(), Type::Number(_, RationalRepresentation::Decimal)));
    match fraction(1, 2).typ() {
        Type::Number(z, _) => {
            assert_eq!(z, Complex { re: rational(1, 2), im: rational(0, 1) });
        }
        other => panic!("{:?}", other),
    }
    assert!(matches!(complex((0, 1), (1, 1)).typ(), Type::Number(_, _)));
    assert!(matches!(Expression::Boolean(false).typ(), Type::Boolean(Some(false))));
    assert!(matches!(parse("!x").typ(), Type::Boolean(None)));
    assert!(matches!(parse("x == y").typ(), Type::Boolean(None)));
    assert!(matches!(parse("x < y").typ(), Type::Boolean(None)));
    assert!(matches!(parse("x && y").typ(), Type::Boolean(None)));
    assert!(matches!(matrix().typ(), Type::Matrix(_)));
    assert!(matches!(variable("x").typ(), Type::Arithmetic));
    assert!(matches!(parse("-x").typ(), Type::Arithmetic));
    assert!(matches!(parse("x ^ y").typ(), Type::Arithmetic));
    assert!(matches!(Expression::Vector(vec![whole(1)]).typ(), Type::Arithmetic));
    assert!(matches!(Expression::Function("f".to_owned(), vec![]).typ(), Type::Arithmetic));
}

#[test]
fn integers_are_compared_by_value() {
    let short = Integer { bytes: vec![1] };
    let long = Integer { bytes: vec![1, 0, 0] };
    assert_eq!(short, long);
    assert!(long.is_one());
    assert!(!long.is_zero());
    assert!(Integer { bytes: vec![] }.is_zero());
    assert!(Integer { bytes: vec![0, 0] }.is_zero());
    assert_ne!(Integer { bytes: vec![255] }, Integer { bytes: vec![255, 0] });
    assert_eq!(Integer { bytes: vec![255] }, Integer { bytes: vec![255, 255] });
    assert_eq!(big(&Integer { bytes: vec![255] }), BigInt::from(-1));
    assert_eq!(big(&Integer { bytes: vec![0, 1] }), BigInt::from(256));
    assert_eq!(big(&Integer { bytes: vec![56, 255] }), BigInt::from(-200));
    assert_eq!(big(&Integer::zero()), BigInt::zero());
    assert_eq!(big(&Integer::one()), BigInt::one());
}

#[test]
fn integers_fit_an_i32_or_not() {
    assert_eq!(integer(&BigInt::from(0)).to_i32(), Some(0));
    assert_eq!(integer(&BigInt::from(-5)).to_i32(), Some(-5));
    assert_eq!(integer(&BigInt::from(i32::MAX)).to_i32(), Some(i32::MAX));
    assert_eq!(integer(&BigInt::from(i32::MIN)).to_i32(), Some(i32::MIN));
    assert_eq!(integer(&(BigInt::from(i32::MAX) + 1)).to_i32(), None);
    assert_eq!(integer(&(BigInt::from(i32::MIN) - 1)).to_i32(), None);
}

#[test]
fn rationals_are_in_lowest_terms() {
    let q = rational(6, -4);
    assert_eq!(big(q.numer()), BigInt::from(-3));
    assert_eq!(big(q.denom()), BigInt::from(2));
    let zero = rational(0, -7);
    assert_eq!(big(zero.numer()), BigInt::from(0));
    assert_eq!(big(zero.denom()), BigInt::from(1));
    assert!(zero.is_zero());
    assert!(zero.is_integer());
    assert!(!q.is_integer());
    assert!(Rational::new(Integer::one(), Integer::zero()).is_none());
    assert_eq!(rational(2, 4), rational(1, 2));
    assert_ne!(rational(1, 2), rational(1, 3));
    let nine = Rational::from_integer(integer(&BigInt::from(9)));
    assert_eq!(nine, rational(9, 1));
    assert!(rational(1, 3).less_than(&rational(1, 2)));
    assert!(!rational(1, 2).less_than(&rational(1, 2)));
    assert!(rational(-1, 2).less_than(&rational(1, 3)));
}

#[test]
fn complex_numbers_are_made_of_rationals() {
    let i = Complex::i();
    assert!(i.re.is_zero());
    assert_eq!(i.im, rational(1, 1));
    assert!(!i.is_real());
    assert!(!i.is_zero());
    let half = Complex::from_rational(rational(1, 2));
    assert!(half.is_real());
    assert_eq!(half.re, rational(1, 2));
    assert!(Complex::from_rational(rational(0, 1)).is_zero());
    assert_eq!(half.clone(), half);
    assert_ne!(half, i);
}

#[test]
fn copies_are_the_same() {
    for text in ["x + 1/2 * 0.25", "!(a && b) == (1 < 2)", "-(i ^ 3) % 7"] {
        let expression = parse(text);
        assert_eq!(expression.clone(), expression);
        assert!(expression.same(&expression.duplicate()));
    }
    let call = Expression::Function("f".to_owned(), vec![whole(1), matrix()]);
    assert_eq!(call.clone(), call);
    assert_ne!(call, Expression::Function("g".to_owned(), vec![whole(1), matrix()]));
    assert_ne!(call, Expression::Function("f".to_owned(), vec![whole(1)]));
    assert_ne!(whole(1), fraction(1, 2));
    assert_ne!(fraction(1, 2), decimal(1, 2));
    assert_ne!(whole(1), Expression::Boolean(true));
    assert_ne!(parse("1 + 2"), parse("1 - 2"));
    assert_ne!(parse("1 + 2"), parse("2 + 1"));
    assert_ne!(
        Expression::Matrix(Matrix::new(1, 2, vec![whole(1), whole(2)]).unwrap()),
        Expression::Matrix(Matrix::new(2, 1, vec![whole(1), whole(2)]).unwrap())
    );
    let error = Error::InvalidOperand { expression: parse("-true"), operand: parse("true") };
    assert_eq!(error.clone(), error);
    assert_ne!(
        error,
        Error::InvalidOperand { expression: parse("-true"), operand: parse("false") }
    );
}

#[test]
fn context_binds_names() {
    let mut context = Context::new();
    assert!(context.get("x").is_none());
    context.insert("x".to_owned(), whole(1));
    assert_eq!(context.get("x"), Some(&whole(1)));
    let mut other = Context::new();
    other.insert("x".to_owned(), whole(2));
    other.insert("y".to_owned(), whole(3));
    context.extend(other);
    assert_eq!(context.get("x"), Some(&whole(2)));
    assert_eq!(context.get("y"), Some(&whole(3)));
    assert!(context.get("z").is_none());
}

#[test]
fn bindings_that_lead_nowhere_are_found_out() {
    let mut context = Context::new();
    context.insert("x".to_owned(), variable("x"));
    assert_eq!(variable("x").try_evaluate(context), None);

    let mut context = Context::new();
    context.insert("x".to_owned(), parse("y + 1"));
    context.insert("y".to_owned(), parse("2 * z"));
    context.insert("z".to_owned(), parse("-x"));
    assert_eq!(parse("1 + y").try_evaluate(context), None);

    let mut context = Context::new();
    context.insert("x".to_owned(), parse("x + 1"));
    assert_eq!(parse("y * 2").try_evaluate(context), Some(Ok(parse("y * 2"))));

    let mut context = Context::new();
    context.insert("x".to_owned(), parse("x + 1"));
    let refused = parse("-true + x");
    assert_eq!(
        refused.try_evaluate(context),
        Some(Err(Error::InvalidOperand {
            expression: parse("-true"),
            operand: Expression::Boolean(true),
        }))
    );

    let mut context = Context::new();
    context.insert("x".to_owned(), parse("x + 1"));
    assert_eq!(parse("x + -true").try_evaluate(context), None);

    let mut context = Context::new();
    context.insert("i".to_owned(), parse("i * 2"));
    assert_eq!(variable("i").try_evaluate(context), None);

    let mut context = Context::new();
    context.insert("f".to_owned(), Expression::Function("f".to_owned(), vec![variable("f")]));
    assert_eq!(
        variable("f").try_evaluate(context),
        Some(Ok(Expression::Function("f".to_owned(), vec![variable("f")])))
    );
}

#[test]
fn bindings_that_lead_somewhere_are_followed() {
    let mut context = Context::new();
    let names = ["a", "b", "c", "d", "e", "f", "g", "h"];
    for pair in names.windows(2) {
        context.insert(pair[0].to_owned(), binary(BinaryOperator::Sum, variable(pair[1]), whole(1)));
    }
    context.insert("h".to_owned(), whole(0));
    assert_eq!(context.len(), 8);
    assert_eq!(variable("a").try_evaluate(context), Some(Ok(whole(7))));

    assert_eq!(parse("1/2 + 0.5").try_evaluate(Context::new()), Some(Ok(whole(1))));
    assert_eq!(variable("i").try_evaluate(Context::new()), Some(Ok(complex((0, 1), (1, 1)))));
    assert_eq!(
        parse("1 / 0").try_evaluate(Context::new()),
        Some(Err(Error::DivisionByZero {
            expression: parse("1 / 0"),
            dividend: whole(1),
            divisor: whole(0),
        }))
    );
    assert_eq!(Context::new().len(), 0);
}
